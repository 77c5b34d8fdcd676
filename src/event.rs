//! Events: the payload contract and the envelope that pairs a payload with
//! its metadata.

use vstd::prelude::*;
use crate::info::Info;
use crate::state::State;

verus! {

/// A kind of event, named by the stream that all its events belong to.
///
/// The spec functions of this trait and of `Event` and `Command` describe an
/// implementation; one that is verified defines them, and their default
/// bodies leave them unknown to every proof.
pub trait EventType {
    /// The name of the stream; the same for every event of the type.
    closed spec fn stream_name() -> Seq<char> {
        arbitrary()
    }

    fn stream_type() -> (r: &'static str)
        ensures
            r@ == Self::stream_name(),
    ;
}

/// An event payload: it names the state it folds into, and how it changes that
/// state. The change is a function of the payload and the prior state alone.
pub trait Event: EventType + Sized {
    type State: State;

    /// The state after this event, given the state before it (`None` where
    /// the aggregate has no state yet).
    closed spec fn next(self, state: Option<Self::State>) -> Self::State {
        arbitrary()
    }

    /// Whether this event may be applied to that prior state; an event that
    /// does not create the state needs some state to change. Unless an
    /// implementation says otherwise, no event may be applied.
    closed spec fn applies_to(&self, state: Option<Self::State>) -> bool {
        false
    }

    fn apply_to(self, state: Option<Self::State>) -> (r: Self::State)
        requires
            self.applies_to(state),
        ensures
            r == self.next(state),
    ;
}

/// An event envelope: a payload with the metadata of its event.
#[derive(Debug, Clone, PartialEq)]
pub struct EventInfo<E> {
    info: Info,
    payload: E,
}

impl<E> View for EventInfo<E> {
    type V = (Info, E);

    closed spec fn view(&self) -> (Info, E) {
        (self.info, self.payload)
    }
}

/// The metadata and payloads of a sequence of envelopes.
pub open spec fn views<E>(es: Seq<EventInfo<E>>) -> Seq<(Info, E)> {
    es.map_values(|e: EventInfo<E>| e@)
}

impl<E: Event> EventInfo<E> {
    pub fn new(info: Info, payload: E) -> (r: EventInfo<E>)
        ensures
            r@ == (info, payload),
    {
        EventInfo { info, payload }
    }

    pub fn take(self) -> (r: (Info, E))
        ensures
            r == self@,
    {
        (self.info, self.payload)
    }

    pub fn info(&self) -> (r: &Info)
        ensures
            *r == self@.0,
    {
        &self.info
    }

    pub fn event(&self) -> (r: &E)
        ensures
            *r == self@.1,
    {
        &self.payload
    }
}

} // verus!
