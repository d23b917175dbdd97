//! Viewer interaction: keyboard teleop and LCM publishing.

pub mod keyboard;
pub mod lcm;

pub use keyboard::KeyboardHandler;
pub use lcm::{click_event_from_ms, ClickEvent, LcmPublisher};
