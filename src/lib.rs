//! Event-sourcing core: events wrapped with metadata, state rebuilt as the
//! fold of those events, commands that decide new events, and the decisions
//! of the append pipeline that persists an event before it is published.

pub mod command;
pub mod driver;
pub mod event;
pub mod info;
pub mod prelude;
pub mod state;

pub use driver::{after_publish, after_save, AppendError, AppendStep, EventDriver};
pub use event::EventInfo;
pub use info::{Date, Id, Info, ParseError, SystemUser, UserType};
pub use state::StateInfo;
