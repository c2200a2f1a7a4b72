//! Core logic of the keyboard/mouse overlay backend: input state tracking,
//! motion-direction judgement, preset conversion, protocol framing and the
//! decisions of the local management service.

pub mod config;
pub mod error;
pub mod keyboard_hook;
pub mod mouse_hook;
pub mod preset;
pub mod state;
pub mod text;
pub mod ui;
pub mod websocket_server;

pub use error::{Error, Result};
pub use state::KeyboardState;

use vstd::prelude::*;

verus! {

/// Version of the backend.
pub const VERSION: &'static str = "0.1.0";

/// Name of the backend package.
pub const APP_NAME: &'static str = "webkeylayer_backend";

} // verus!
