//! The state envelope: the state of one aggregate as the fold of its events,
//! with the metadata of the last event folded in.

use vstd::prelude::*;
use crate::command::Command;
use crate::event::{Event, EventInfo, EventType};
use crate::info::{Info, UserType};

verus! {

/// The state data inside a view of a state envelope.
pub open spec fn data_of<T>(s: Option<(Info, T)>) -> Option<T> {
    match s {
        Some(p) => Some(p.1),
        None => None,
    }
}

/// The version of the last event folded into a state; 0 for no event.
pub open spec fn version_of<T>(s: Option<(Info, T)>) -> int {
    match s {
        Some(p) => p.0.version as int,
        None => 0,
    }
}

/// One step of the fold: the event's metadata becomes the state's, and its
/// payload changes the data.
pub open spec fn step<E: Event>(s: Option<(Info, E::State)>, e: (Info, E)) -> Option<
    (Info, E::State),
> {
    Some((e.0, e.1.next(data_of(s))))
}

/// The fold of a sequence of events over a state, earliest first.
pub open spec fn replayed<E: Event>(s: Option<(Info, E::State)>, es: Seq<(Info, E)>) -> Option<
    (Info, E::State),
>
    decreases es.len(),
{
    if es.len() == 0 {
        s
    } else {
        replayed(step(s, es[0]), es.subrange(1, es.len() as int))
    }
}

/// Each event of the sequence may be applied to the state that the events
/// before it lead to.
pub open spec fn replayable<E: Event>(s: Option<(Info, E::State)>, es: Seq<(Info, E)>) -> bool
    decreases es.len(),
{
    es.len() == 0 || (es[0].1.applies_to(data_of(s)) && replayable(
        step(s, es[0]),
        es.subrange(1, es.len() as int),
    ))
}

/// The events `es` continue the state `s` for the actor `user`, one per
/// payload of `ps` in order: versions count on from the state's, the
/// identifier and stream are the state's (for a state with no event yet: the
/// event type's stream, and one fresh random identifier shared by all); each
/// carries a valid timestamp.
pub open spec fn continues<E: Event>(
    s: Option<(Info, E::State)>,
    user: UserType,
    ps: Seq<E>,
    es: Seq<(Info, E)>,
) -> bool {
    &&& es.len() == ps.len()
    &&& forall|i: int|
        0 <= i < es.len() ==> {
            &&& (#[trigger] es[i]).1 == ps[i]
            &&& es[i].0.version == version_of(s) + i + 1
            &&& es[i].0.user == user
            &&& es[i].0.date.nanos < 1_000_000_000
            &&& es[i].0.id == match s {
                Some(p) => p.0.id,
                None => es[0].0.id,
            }
            &&& s is None ==> crate::info::is_random_id(es[i].0.id@)
            &&& es[i].0.stream@ == match s {
                Some(p) => p.0.stream@,
                None => E::stream_name(),
            }
        }
}

/// One fold step, as a function.
pub open spec fn fold_step<E: Event>() -> spec_fn(Option<(Info, E::State)>, (Info, E)) -> Option<
    (Info, E::State),
> {
    |acc: Option<(Info, E::State)>, e: (Info, E)| step(acc, e)
}

proof fn lemma_replayed_alt<E: Event>(s: Option<(Info, E::State)>, es: Seq<(Info, E)>)
    ensures
        replayed(s, es) == es.fold_left_alt(s, fold_step::<E>()),
    decreases es.len(),
{
    if es.len() > 0 {
        lemma_replayed_alt(step(s, es[0]), es.subrange(1, es.len() as int));
    }
}

/// Replaying is iterated `apply`: folding a sequence of events into a state,
/// earliest first, gives the left fold of single `apply` steps over the
/// sequence, from any state (the empty one of `init` among them).
pub proof fn lemma_replay_is_fold<E: Event>(s: Option<(Info, E::State)>, es: Seq<(Info, E)>)
    ensures
        replayed(s, es) == es.fold_left(s, fold_step::<E>()),
{
    lemma_replayed_alt(s, es);
    es.lemma_fold_left_alt(s, fold_step::<E>());
}

/// Relates the last metadata minted so far to the state it started from.
spec fn last_minted<E: Event>(s: Option<(Info, E::State)>, es: Seq<(Info, E)>) -> Option<Info> {
    if es.len() == 0 {
        match s {
            Some(p) => Some(p.0),
            None => None,
        }
    } else {
        Some(es.last().0)
    }
}

/// A state type; `init` gives its envelope with no event folded in.
pub trait State: Sized {
    fn init() -> (r: StateInfo<Self>)
        ensures
            r@ == None::<(Info, Self)>,
    {
        StateInfo(None)
    }
}

#[derive(Debug, Clone, PartialEq)]
struct InnerState<T> {
    info: Info,
    data: T,
}

/// The state of one aggregate: nothing before its first event, else the
/// metadata of the last event folded in and the data that the fold gives.
#[derive(Debug, Clone, PartialEq)]
pub struct StateInfo<T>(Option<InnerState<T>>);

impl<T> View for StateInfo<T> {
    type V = Option<(Info, T)>;

    closed spec fn view(&self) -> Option<(Info, T)> {
        match self.0 {
            Some(inner) => Some((inner.info, inner.data)),
            None => None,
        }
    }
}

/// The state that folding `e` into `s` gives, as a value.
pub closed spec fn applied<E: Event>(s: StateInfo<E::State>, e: EventInfo<E>) -> StateInfo<
    E::State,
> {
    StateInfo(Some(InnerState { info: e@.0, data: e@.1.next(data_of(s@)) }))
}

/// Two state envelopes with the same view are the same value.
pub proof fn lemma_view_injective<T>(a: StateInfo<T>, b: StateInfo<T>)
    requires
        a@ == b@,
    ensures
        a == b,
{
    match a.0 {
        Some(x) => {
            let y = b.0->Some_0;
            assert(x == y);
        },
        None => {},
    }
}

/// The view of the value that folding gives is the fold step on views.
pub proof fn lemma_applied_view<E: Event>(s: StateInfo<E::State>, e: EventInfo<E>)
    ensures
        applied(s, e)@ == step(s@, e@),
{
}

impl<E: Event> core::ops::Add<EventInfo<E>> for StateInfo<E::State> {
    type Output = StateInfo<E::State>;

    /// `state + event` folds the event into the state, as `apply` does.
    fn add(self, rhs: EventInfo<E>) -> (r: StateInfo<E::State>) {
        let ghost s = self;
        let ghost e = rhs;
        let r = self.apply(rhs);
        proof {
            lemma_applied_view(s, e);
            lemma_view_injective(r, applied(s, e));
        }
        r
    }
}

impl<E: Event> vstd::std_specs::ops::AddSpecImpl<EventInfo<E>> for StateInfo<E::State> {
    open spec fn obeys_add_spec() -> bool {
        true
    }

    open spec fn add_req(self, rhs: EventInfo<E>) -> bool {
        rhs@.1.applies_to(data_of(self@))
    }

    open spec fn add_spec(self, rhs: EventInfo<E>) -> StateInfo<E::State> {
        applied(self, rhs)
    }
}

/// Adding two events to a state with `+`, one after the other, gives the
/// state that replaying the two, in that order, gives.
pub proof fn lemma_add_twice_is_replay<E: Event>(
    s: StateInfo<E::State>,
    e1: EventInfo<E>,
    e2: EventInfo<E>,
)
    ensures
        vstd::std_specs::ops::AddSpec::add_spec(
            vstd::std_specs::ops::AddSpec::add_spec(s, e1),
            e2,
        )@ == replayed(s@, crate::event::views(seq![e1, e2])),
{
    let es = crate::event::views(seq![e1, e2]);
    assert(es =~= seq![e1@, e2@]);
    lemma_applied_view(s, e1);
    lemma_applied_view(applied(s, e1), e2);
    let rest = es.subrange(1, 2);
    assert(rest =~= seq![e2@]);
    assert(rest.subrange(1, 1) =~= Seq::<(Info, E)>::empty());
    let s1 = step(s@, e1@);
    assert(replayed(s1, rest) == replayed(step(s1, e2@), Seq::<(Info, E)>::empty()));
    assert(replayed(s@, es) == replayed(s1, rest));
    assert(vstd::std_specs::ops::AddSpec::add_spec(s, e1) == applied(s, e1));
}

/// Folding an event is deterministic: two results of `apply` of the same
/// event to the same state (so of `apply_to` on the same payload and prior
/// data) are equal values.
pub proof fn lemma_apply_deterministic<E: Event>(
    s: StateInfo<E::State>,
    e: EventInfo<E>,
    r1: StateInfo<E::State>,
    r2: StateInfo<E::State>,
)
    requires
        r1@ == step(s@, e@),
        r2@ == step(s@, e@),
    ensures
        r1 == r2,
        r1@ == Some((e@.0, e@.1.next(data_of(s@)))),
{
    lemma_view_injective(r1, r2);
}

/// Deciding is apart from folding: two commands handled against the same
/// state, with nothing folded in between, both mint their first event at the
/// version that follows the state's.
pub proof fn lemma_decisions_share_prior_version<E: Event>(
    s: Option<(Info, E::State)>,
    u1: UserType,
    ps1: Seq<E>,
    es1: Seq<(Info, E)>,
    u2: UserType,
    ps2: Seq<E>,
    es2: Seq<(Info, E)>,
)
    requires
        continues(s, u1, ps1, es1),
        continues(s, u2, ps2, es2),
        ps1.len() > 0,
        ps2.len() > 0,
    ensures
        es1[0].0.version == version_of(s) + 1,
        es2[0].0.version == version_of(s) + 1,
        es1[0].0.version == es2[0].0.version,
{
    assert(es1[0] == es1[0]);
    assert(es2[0] == es2[0]);
}

/// The items of `v` in reverse order, so that popping gives them first to last.
fn reversed<X>(v: Vec<X>) -> (r: Vec<X>)
    ensures
        r@.len() == v@.len(),
        forall|i: int| 0 <= i < v@.len() ==> r@[i] == v@[v@.len() - 1 - i],
{
    let ghost orig = v@;
    let mut v = v;
    let mut r: Vec<X> = Vec::new();
    while v.len() > 0
        invariant
            v@ == orig.subrange(0, v@.len() as int),
            r@.len() + v@.len() == orig.len(),
            forall|i: int| 0 <= i < r@.len() ==> r@[i] == orig[orig.len() - 1 - i],
        decreases v@.len(),
    {
        let x = v.pop().unwrap();
        r.push(x);
    }
    r
}

impl<T: State> StateInfo<T> {
    pub fn info(&self) -> (r: Option<&Info>)
        ensures
            r == match self@ {
                Some(p) => Some(&p.0),
                None => None,
            },
    {
        match &self.0 {
            Some(inner) => Some(&inner.info),
            None => None,
        }
    }

    pub fn data(&self) -> (r: Option<&T>)
        ensures
            r == match self@ {
                Some(p) => Some(&p.1),
                None => None,
            },
    {
        match &self.0 {
            Some(inner) => Some(&inner.data),
            None => None,
        }
    }

    fn take(self) -> (r: (Option<Info>, Option<T>))
        ensures
            r.1 == data_of(self@),
            r.0 == match self@ {
                Some(p) => Some(p.0),
                None => None,
            },
    {
        match self.0 {
            Some(inner) => (Some(inner.info), Some(inner.data)),
            None => (None, None),
        }
    }

    pub fn is_none(&self) -> (r: bool)
        ensures
            r == (self@ is None),
    {
        self.0.is_none()
    }

    pub fn is_some(&self) -> (r: bool)
        ensures
            r == (self@ is Some),
    {
        self.0.is_some()
    }

    /// Runs a command on the current data and wraps each payload it decides
    /// in metadata that continues this state, all for the actor `user`. The
    /// events are returned, not folded in: the state is left to the caller.
    pub fn handle<E: Event<State = T>, C: Command<Event = E>>(self, command: C, user: UserType) -> (r:
        Result<Vec<EventInfo<E>>, C::Error>)
        requires
            command.decide(data_of(self@)) matches Ok(ps) ==> version_of(self@) + ps.len()
                <= i64::MAX,
        ensures
            match command.decide(data_of(self@)) {
                Ok(ps) => r matches Ok(es) && continues(self@, user, ps, crate::event::views(es@)),
                Err(x) => r == Err::<Vec<EventInfo<E>>, C::Error>(x),
            },
    {
        let ghost s = self@;
        let (info, data) = self.take();
        match command.handle_by(data) {
            Err(x) => Err(x),
            Ok(payloads) => {
                let ghost ps = payloads@;
                let n = payloads.len();
                let mut rest = reversed(payloads);
                let mut events: Vec<EventInfo<E>> = Vec::new();
                let mut last = info;
                while rest.len() > 0
                    invariant
                        rest@.len() <= n == ps.len(),
                        version_of(s) + n <= i64::MAX,
                        forall|i: int| 0 <= i < rest@.len() ==> #[trigger] rest@[i] == ps[n - 1 - i],
                        events@.len() == n - rest@.len(),
                        last == last_minted(s, crate::event::views(events@)),
                        continues(
                            s,
                            user,
                            ps.subrange(0, events@.len() as int),
                            crate::event::views(events@),
                        ),
                    decreases rest@.len(),
                {
                    let ghost k: int = events@.len() as int;
                    let ghost before = crate::event::views(events@);
                    let payload = rest.pop().unwrap();
                    let next = match last {
                        Some(prev) => prev.increase(user),
                        None => Info::new::<E>(user),
                    };
                    events.push(EventInfo::new(next.clone(), payload));
                    let ghost after = crate::event::views(events@);
                    assert(after =~= before.push((next, payload)));
                    assert(ps.subrange(0, k + 1) =~= ps.subrange(0, k).push(payload));
                    last = Some(next);
                }
                assert(ps.subrange(0, n as int) =~= ps);
                Ok(events)
            },
        }
    }

    /// Folds one event into the state.
    pub fn apply<E: Event<State = T>>(self, e: EventInfo<E>) -> (r: Self)
        requires
            e@.1.applies_to(data_of(self@)),
        ensures
            r@ == step(self@, e@),
    {
        let (info, event) = e.take();
        let data = event.apply_to(self.take().1);
        StateInfo(Some(InnerState { info, data }))
    }

    /// Folds a sequence of events into the state, in the order given.
    pub fn replay<E: Event<State = T>>(self, events: Vec<EventInfo<E>>) -> (r: Self)
        requires
            replayable(self@, crate::event::views(events@)),
        ensures
            r@ == replayed(self@, crate::event::views(events@)),
    {
        let ghost all = crate::event::views(events@);
        let n = events.len();
        let mut rest = reversed(events);
        let mut state = self;
        assert(all.subrange(0, n as int) =~= all);
        while rest.len() > 0
            invariant
                rest@.len() <= n == all.len(),
                forall|i: int|
                    0 <= i < rest@.len() ==> #[trigger] rest@[i]@ == all[n - 1 - i],
                replayable(state@, all.subrange(n - rest@.len(), n as int)),
                replayed(state@, all.subrange(n - rest@.len(), n as int)) == replayed(
                    self@,
                    all,
                ),
            decreases rest@.len(),
        {
            let ghost k = n - rest@.len();
            let ghost tail = all.subrange(k, n as int);
            let e = rest.pop().unwrap();
            assert(e@ == tail[0]);
            assert(tail.subrange(1, tail.len() as int) =~= all.subrange(k + 1, n as int));
            state = state.apply(e);
        }
        assert(all.subrange(n as int, n as int) =~= Seq::<(Info, E)>::empty());
        state
    }
}

} // verus!
