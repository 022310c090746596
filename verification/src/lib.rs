//! Driving the screens of an emulated device: the registry of screens and the
//! rules by which it binds packages, waits for a screen to settle and drops
//! screens that nobody asks for any more; the steps by which a client reaches
//! the control plane; and the accessibility tree of a screen as compact text.

pub mod a11y;
pub mod client;
pub mod error;
pub mod idle;
pub mod jpeg;
pub mod packages;
pub mod platform;
pub mod registry;
pub mod runner;
pub mod text;
pub mod types;
