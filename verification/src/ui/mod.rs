//! Local management service and tray: request parsing, routing, response
//! framing, configuration patches and tray menu decisions.

pub mod exchange;
pub mod json_value;
pub mod server;
pub mod tray;
pub mod webview;

pub use server::DEFAULT_ADMIN_PORT;
