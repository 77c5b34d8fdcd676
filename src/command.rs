//! Commands: intents that, checked against the current state, decide the
//! events to record.

use vstd::prelude::*;
use crate::event::Event;

verus! {

/// What a decision returns, with its list of payloads seen as a sequence.
pub open spec fn decision<P, X>(r: Result<Vec<P>, X>) -> Result<Seq<P>, X> {
    match r {
        Ok(v) => Ok(v@),
        Err(e) => Err(e),
    }
}

/// A command. Its decision depends on the command and the current state
/// alone; it either yields all its payloads, in order, or fails with none.
pub trait Command: Sized {
    type Event: Event;
    type Error;

    /// The decision of the command on that state.
    closed spec fn decide(self, state: Option<<Self::Event as Event>::State>) -> Result<
        Seq<Self::Event>,
        Self::Error,
    > {
        arbitrary()
    }

    fn handle_by(self, state: Option<<Self::Event as Event>::State>) -> (r: Result<
        Vec<Self::Event>,
        Self::Error,
    >)
        ensures
            decision(r) == self.decide(state),
    ;
}

} // verus!
