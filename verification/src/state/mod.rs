//! Input state shared between the capture layer and the broadcaster.

pub mod keyboard_state;

pub use keyboard_state::KeyboardState;
