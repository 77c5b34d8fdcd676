//! The driver: a store and a bus behind one append pipeline. An append saves
//! the envelope first and publishes it only once it is saved; the decisions
//! between those two steps are here, the awaiting of each step is the host's.

use vstd::prelude::*;
use crate::info::Id;

verus! {

/// A store and a bus, owned together.
pub struct EventDriver<S, B> {
    store: S,
    bus: B,
}

impl<S, B> EventDriver<S, B> {
    pub closed spec fn store_of(&self) -> S {
        self.store
    }

    pub closed spec fn bus_of(&self) -> B {
        self.bus
    }

    pub fn new(store: S, bus: B) -> (r: Self)
        ensures
            r.store_of() == store,
            r.bus_of() == bus,
    {
        EventDriver { store, bus }
    }

    /// The store, for the step that saves.
    pub fn store_mut(&mut self) -> (r: &mut S)
        ensures
            *r == old(self).store_of(),
            *final(r) == final(self).store_of(),
            final(self).bus_of() == old(self).bus_of(),
    {
        &mut self.store
    }

    /// The bus, for the step that publishes and for subscriptions.
    pub fn bus_mut(&mut self) -> (r: &mut B)
        ensures
            *r == old(self).bus_of(),
            *final(r) == final(self).bus_of(),
            final(self).store_of() == old(self).store_of(),
    {
        &mut self.bus
    }
}

/// Why an append failed.
#[derive(Debug, Clone, PartialEq, Eq)]
pub enum AppendError<X> {
    /// The store did not save the envelope: no event happened, and it was not
    /// published.
    Save(X),
    /// The store saved the envelope, then the bus did not publish it: the
    /// event is durable, its subscribers were not told.
    Publish(X),
}

/// What an append does once the store has answered.
#[derive(Debug, PartialEq, Eq)]
pub enum AppendStep<X> {
    /// Publish the envelope, which the store saved under this identifier.
    Publish(Id),
    /// The append is over, with this outcome.
    Done(Result<Id, AppendError<X>>),
}

/// The step after saving: publish what was saved; where the save failed, stop
/// with the store's error unchanged, and publish nothing.
pub fn after_save<X>(saved: Result<Id, X>) -> (r: AppendStep<X>)
    ensures
        match saved {
            Ok(id) => r == AppendStep::<X>::Publish(id),
            Err(x) => r == AppendStep::<X>::Done(Err(AppendError::Save(x))),
        },
{
    match saved {
        Ok(id) => AppendStep::Publish(id),
        Err(x) => AppendStep::Done(Err(AppendError::Save(x))),
    }
}

/// The outcome after publishing what was saved under `id`: that identifier,
/// or the bus's error unchanged, marked as coming after a save.
pub fn after_publish<X>(id: Id, published: Result<(), X>) -> (r: Result<Id, AppendError<X>>)
    ensures
        match published {
            Ok(()) => r == Ok::<Id, AppendError<X>>(id),
            Err(x) => r == Err::<Id, AppendError<X>>(AppendError::Publish(x)),
        },
{
    match published {
        Ok(()) => Ok(id),
        Err(x) => Err(AppendError::Publish(x)),
    }
}

} // verus!
