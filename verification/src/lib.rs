//! Monitor layout model for a desktop compositor: reading the compositor's
//! status text into monitor records, looking monitors up, and computing the
//! configuration commands that move, enable or disable them.

pub mod command;
pub mod direction;
pub mod monitor;
pub mod number;
pub mod placement;
pub mod rate;
pub mod request;
pub mod setup;
pub mod text;

pub use command::Command;
pub use direction::ThrowDirection;
pub use monitor::{Monitor, ParseError, Position, Resolution};
pub use placement::Unknown;
pub use request::{Plan, Refusal, Request};
pub use setup::Setup;
