//! The contracts that an application implements for its own events, states
//! and commands.

pub use crate::command::Command;
pub use crate::event::{Event, EventType};
pub use crate::state::State;
