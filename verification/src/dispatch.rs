//! The guest's runtime routing: which of the author's entry points a host call
//! reaches.
//!
//! A guest registers the code it runs after load — a handler per `Custom` impact
//! name, one per-tick entry, and a reaction per mod-defined event — and every
//! host call is routed by what selects it. The tables hold whatever the author
//! registered (closures, in practice); routing never calls them, it only says
//! which one a call reaches, and a selector nothing was registered under reaches
//! nothing.
use vstd::prelude::*;

use crate::ids::{EventId, HandlerId};

verus! {

/// What the handler table holds at `id`: nothing for an id past its end.
pub open spec fn handler_at<H>(handlers: Seq<Option<H>>, id: u32) -> Option<H> {
    if (id as int) < handlers.len() {
        handlers[id as int]
    } else {
        None
    }
}

/// The handler table after binding `f` at `id`: grown with empty entries as far
/// as `id`, and `f` at `id`.
pub open spec fn with_handler<H>(handlers: Seq<Option<H>>, id: u32, f: H) -> Seq<Option<H>> {
    let len = if (id as int) < handlers.len() { handlers.len() as int } else { id as int + 1 };
    Seq::new(
        len as nat,
        |j: int|
            if j == id as int {
                Some(f)
            } else if j < handlers.len() {
                handlers[j]
            } else {
                None
            },
    )
}

/// The reaction a trigger for `event` reaches: the earliest one registered for it.
pub open spec fn trigger_for<G>(triggers: Seq<(EventId, G)>, event: EventId) -> Option<G>
    decreases triggers.len(),
{
    if triggers.len() == 0 {
        None
    } else {
        match trigger_for(triggers.drop_last(), event) {
            Some(g) => Some(g),
            None => if triggers.last().0 == event {
                Some(triggers.last().1)
            } else {
                None
            },
        }
    }
}

/// The entry points a guest registered, by what selects them: a handler by its
/// id, the tick entry alone, a reaction by the event it answers.
#[verifier::reject_recursive_types(H)]
#[verifier::reject_recursive_types(T)]
#[verifier::reject_recursive_types(G)]
pub struct Dispatch<H, T, G> {
    handlers: Vec<Option<H>>,
    tick: Option<T>,
    triggers: Vec<(EventId, G)>,
}

impl<H, T, G> Dispatch<H, T, G> {
    /// The handler table, indexed by handler id.
    pub closed spec fn handlers_spec(&self) -> Seq<Option<H>> {
        self.handlers@
    }

    /// The per-tick entry, if one was registered.
    pub closed spec fn tick_spec(&self) -> Option<T> {
        self.tick
    }

    /// The reactions, in registration order, each with the event it answers.
    pub closed spec fn triggers_spec(&self) -> Seq<(EventId, G)> {
        self.triggers@
    }

    /// Tables with nothing registered.
    pub fn new() -> (r: Self)
        ensures
            r.handlers_spec() == Seq::<Option<H>>::empty(),
            r.tick_spec() is None,
            r.triggers_spec() == Seq::<(EventId, G)>::empty(),
    {
        Dispatch { handlers: Vec::new(), tick: None, triggers: Vec::new() }
    }

    /// Register `f` as the handler a call with `id` reaches, replacing whatever
    /// was registered there.
    pub fn bind_handler(&mut self, id: HandlerId, f: H)
        ensures
            final(self).handlers_spec() == with_handler(old(self).handlers_spec(), id.0, f),
            final(self).tick_spec() == old(self).tick_spec(),
            final(self).triggers_spec() == old(self).triggers_spec(),
    {
        let idx = id.0 as usize;
        let ghost start = self.handlers@;
        let ghost tick = self.tick;
        let ghost triggers = self.triggers@;
        while self.handlers.len() <= idx
            invariant
                self.tick == tick,
                self.triggers@ == triggers,
                start.len() <= self.handlers@.len() <= if (idx as int) < start.len() {
                    start.len() as int
                } else {
                    idx as int + 1
                },
                forall|j: int| 0 <= j < start.len() ==> self.handlers@[j] == start[j],
                forall|j: int| start.len() <= j < self.handlers@.len() ==> self.handlers@[j] is None,
            decreases idx + 1 - self.handlers.len(),
        {
            self.handlers.push(None);
        }
        self.handlers.set(idx, Some(f));
        assert(self.handlers@ =~= with_handler(start, id.0, f));
    }

    /// Register `f` as the per-tick entry, replacing any earlier one.
    pub fn set_tick(&mut self, f: T)
        ensures
            final(self).tick_spec() == Some(f),
            final(self).handlers_spec() == old(self).handlers_spec(),
            final(self).triggers_spec() == old(self).triggers_spec(),
    {
        self.tick = Some(f);
    }

    /// Register `g` as a reaction to `event`. The earliest reaction registered for
    /// an event is the one it reaches.
    pub fn add_trigger(&mut self, event: EventId, g: G)
        ensures
            final(self).triggers_spec() == old(self).triggers_spec().push((event, g)),
            final(self).handlers_spec() == old(self).handlers_spec(),
            final(self).tick_spec() == old(self).tick_spec(),
    {
        self.triggers.push((event, g));
    }

    /// The handler a call with `id` reaches, if any.
    pub fn handler(&self, id: HandlerId) -> (r: Option<&H>)
        ensures
            r is Some <==> handler_at(self.handlers_spec(), id.0) is Some,
            r matches Some(f) ==> handler_at(self.handlers_spec(), id.0) == Some(*f),
    {
        let idx = id.0 as usize;
        if idx < self.handlers.len() {
            self.handlers[idx].as_ref()
        } else {
            None
        }
    }

    /// The per-tick entry, if any.
    pub fn tick(&self) -> (r: Option<&T>)
        ensures
            r is Some <==> self.tick_spec() is Some,
            r matches Some(f) ==> self.tick_spec() == Some(*f),
    {
        self.tick.as_ref()
    }

    /// The reaction a trigger for `event` reaches, if any.
    pub fn trigger(&self, event: EventId) -> (r: Option<&G>)
        ensures
            r is Some <==> trigger_for(self.triggers_spec(), event) is Some,
            r matches Some(g) ==> trigger_for(self.triggers_spec(), event) == Some(*g),
    {
        let mut i: usize = 0;
        while i < self.triggers.len()
            invariant
                i <= self.triggers@.len(),
                trigger_for(self.triggers@.take(i as int), event) is None,
            decreases self.triggers@.len() - i,
        {
            assert(self.triggers@.take(i as int + 1).drop_last() =~= self.triggers@.take(i as int));
            if self.triggers[i].0 == event {
                proof {
                    lemma_found_stays(self.triggers@, i as int + 1, event);
                }
                return Some(&self.triggers[i].1);
            }
            i = i + 1;
        }
        assert(self.triggers@.take(i as int) =~= self.triggers@);
        None
    }
}

/// Once a prefix of the reactions reaches one for `event`, the whole list
/// reaches that same one.
proof fn lemma_found_stays<G>(triggers: Seq<(EventId, G)>, n: int, event: EventId)
    requires
        0 <= n <= triggers.len(),
        trigger_for(triggers.take(n), event) is Some,
    ensures
        trigger_for(triggers, event) == trigger_for(triggers.take(n), event),
    decreases triggers.len() - n,
{
    if n < triggers.len() {
        assert(triggers.take(n + 1).drop_last() =~= triggers.take(n));
        lemma_found_stays(triggers, n + 1, event);
    } else {
        assert(triggers.take(n) =~= triggers);
    }
}

/// A handler bound at an id is the one a call with that id reaches, and binding
/// it leaves what every other id reaches as it was.
pub proof fn law_bound_handler_is_reached<H>(handlers: Seq<Option<H>>, id: u32, f: H, other: u32)
    ensures
        handler_at(with_handler(handlers, id, f), id) == Some(f),
        other != id ==> handler_at(with_handler(handlers, id, f), other) == handler_at(
            handlers,
            other,
        ),
{
}

/// Registering a reaction never takes an event away from the reaction it
/// already reached, and an event nothing answered yet reaches the new one
/// exactly when it is the event it was registered for.
pub proof fn law_first_reaction_wins<G>(
    triggers: Seq<(EventId, G)>,
    event: EventId,
    g: G,
    asked: EventId,
)
    ensures
        trigger_for(triggers, asked) is Some ==> trigger_for(triggers.push((event, g)), asked)
            == trigger_for(triggers, asked),
        trigger_for(triggers, asked) is None ==> trigger_for(triggers.push((event, g)), asked)
            == (if asked == event {
            Some(g)
        } else {
            None
        }),
{
    assert(triggers.push((event, g)).drop_last() =~= triggers);
}

} // verus!
