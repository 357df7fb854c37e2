//! The supervisor: the registered producers, each stepped on its own.
use crate::producer::{
    lemma_next_keeps_descriptor, next, run, Action, ActionView, Descriptor, Event, EventView,
    Producer, ProducerView, RegisterError,
};
use vstd::prelude::*;

verus! {

/// Whether a producer of the fleet publishes under `name`.
pub open spec fn has_name(fleet: Seq<ProducerView>, name: Seq<char>) -> bool {
    exists|i: int| 0 <= i < fleet.len() && #[trigger] fleet[i].name == name
}

/// No two producers of the fleet share a name, and every interval is more
/// than zero.
pub open spec fn well_formed(fleet: Seq<ProducerView>) -> bool {
    &&& forall|i: int, j: int|
        0 <= i < j < fleet.len() ==> #[trigger] fleet[i].name != #[trigger] fleet[j].name
    &&& forall|i: int| 0 <= i < fleet.len() ==> (#[trigger] fleet[i]).interval > 0
}

/// The fleet after producer `id` has taken `event`: that producer moves as
/// `next` says, every other producer stays as it is.
pub open spec fn fleet_next(fleet: Seq<ProducerView>, id: int, event: EventView) -> Seq<
    ProducerView,
> {
    if 0 <= id < fleet.len() {
        fleet.update(id, next(fleet[id], event).0)
    } else {
        fleet
    }
}

/// A fleet stays well formed when a producer with a fresh name and an
/// interval above zero joins it.
pub proof fn lemma_push_keeps_well_formed(fleet: Seq<ProducerView>, newcomer: ProducerView)
    requires
        well_formed(fleet),
        newcomer.interval > 0,
        !has_name(fleet, newcomer.name),
    ensures
        well_formed(fleet.push(newcomer)),
{
    let grown = fleet.push(newcomer);
    assert forall|i: int, j: int| 0 <= i < j < grown.len() implies #[trigger] grown[i].name
        != #[trigger] grown[j].name by {
        if j == fleet.len() {
            assert(fleet[i].name != newcomer.name);
        }
    }
}

/// A fleet stays well formed whatever event any of its producers takes.
pub proof fn lemma_fleet_next_keeps_well_formed(
    fleet: Seq<ProducerView>,
    id: int,
    event: EventView,
)
    requires
        well_formed(fleet),
    ensures
        well_formed(fleet_next(fleet, id, event)),
{
    if 0 <= id < fleet.len() {
        lemma_next_keeps_descriptor(fleet[id], event);
        let after = fleet_next(fleet, id, event);
        assert forall|i: int, j: int| 0 <= i < j < after.len() implies #[trigger] after[i].name
            != #[trigger] after[j].name by {
            assert(after[i].name == fleet[i].name);
            assert(after[j].name == fleet[j].name);
        }
        assert forall|i: int| 0 <= i < after.len() implies (#[trigger] after[i]).interval
            > 0 by {
            assert(after[i].interval == fleet[i].interval);
        }
    }
}

/// The views of a list of producers.
pub open spec fn fleet_view(producers: Seq<Producer>) -> Seq<ProducerView> {
    Seq::new(producers.len(), |i: int| producers[i]@)
}

/// Holds the registered producers.
pub struct Supervisor {
    producers: Vec<Producer>,
}

impl View for Supervisor {
    type V = Seq<ProducerView>;

    closed spec fn view(&self) -> Seq<ProducerView> {
        fleet_view(self.producers@)
    }
}

impl Supervisor {
    /// A supervisor without producers.
    pub fn new() -> (r: Supervisor)
        ensures
            r@ == Seq::<ProducerView>::empty(),
    {
        let r = Supervisor { producers: Vec::new() };
        assert(r@ =~= Seq::<ProducerView>::empty());
        r
    }

    /// How many producers are registered.
    pub fn len(&self) -> (r: usize)
        ensures
            r == self@.len(),
    {
        self.producers.len()
    }

    /// The producer with index `id`.
    pub fn producer(&self, id: usize) -> (r: Option<&Producer>)
        ensures
            r is Some <==> id < self@.len(),
            r matches Some(p) ==> p@ == self@[id as int],
    {
        if id < self.producers.len() {
            Some(&self.producers[id])
        } else {
            None
        }
    }

    /// The index of the first producer that publishes under `name`; in a
    /// well-formed fleet it is the only one.
    pub fn index_of(&self, name: &String) -> (r: Option<usize>)
        ensures
            r is Some <==> has_name(self@, name@),
            r matches Some(i) ==> {
                &&& i < self@.len()
                &&& self@[i as int].name == name@
                &&& forall|j: int| 0 <= j < i ==> (#[trigger] self@[j]).name != name@
            },
    {
        let mut i: usize = 0;
        while i < self.producers.len()
            invariant
                i <= self.producers.len(),
                forall|j: int| 0 <= j < i ==> (#[trigger] self@[j]).name != name@,
            decreases self.producers.len() - i,
        {
            if self.producers[i].is_named(name) {
                return Some(i);
            }
            i += 1;
        }
        None
    }

    /// Registers a producer and gives its index. A zero interval is refused
    /// first, then a name that is taken; a refusal changes nothing.
    pub fn register(&mut self, descriptor: Descriptor) -> (r: Result<usize, RegisterError>)
        ensures
            descriptor.interval == 0 ==> r == Err::<usize, RegisterError>(
                RegisterError::ZeroInterval,
            ) && final(self)@ == old(self)@,
            descriptor.interval != 0 && has_name(old(self)@, descriptor.name@) ==> r == Err::<
                usize,
                RegisterError,
            >(RegisterError::DuplicateName) && final(self)@ == old(self)@,
            descriptor.interval != 0 && !has_name(old(self)@, descriptor.name@) ==> r == Ok::<
                usize,
                RegisterError,
            >(old(self)@.len() as usize) && final(self)@ == old(self)@.push(descriptor@),
            well_formed(old(self)@) ==> well_formed(final(self)@),
    {
        if descriptor.interval == 0 {
            return Err(RegisterError::ZeroInterval);
        }
        if self.index_of(&descriptor.name).is_some() {
            return Err(RegisterError::DuplicateName);
        }
        let id = self.producers.len();
        match Producer::new(descriptor) {
            Ok(producer) => {
                self.producers.push(producer);
                proof {
                    assert(self@ =~= old(self)@.push(descriptor@));
                    if well_formed(old(self)@) {
                        lemma_push_keeps_well_formed(old(self)@, descriptor@);
                    }
                }
                Ok(id)
            },
            Err(e) => Err(e),
        }
    }

    /// Hands `event` to producer `id` and gives its answer; `None` when no
    /// producer has that index. No other producer is touched.
    pub fn dispatch(&mut self, id: usize, event: Event) -> (r: Option<Action>)
        ensures
            final(self)@ == fleet_next(old(self)@, id as int, event@),
            id < old(self)@.len() ==> r is Some && r->Some_0@ == next(
                old(self)@[id as int],
                event@,
            ).1,
            id >= old(self)@.len() ==> r is None,
            well_formed(old(self)@) ==> well_formed(final(self)@),
    {
        if id >= self.producers.len() {
            return None;
        }
        let action = self.producers[id].step(event);
        proof {
            assert(self@ =~= fleet_next(old(self)@, id as int, event@));
            if well_formed(old(self)@) {
                lemma_fleet_next_keeps_well_formed(old(self)@, id as int, event@);
            }
        }
        Some(action)
    }
}

/// One dispatch: the index of a producer and the event handed to it.
pub struct Dispatch {
    pub id: int,
    pub event: EventView,
}

/// The fleet after a run of dispatches.
pub open spec fn fleet_run(fleet: Seq<ProducerView>, steps: Seq<Dispatch>) -> Seq<ProducerView>
    decreases steps.len(),
{
    if steps.len() == 0 {
        fleet
    } else {
        fleet_next(fleet_run(fleet, steps.drop_last()), steps.last().id, steps.last().event)
    }
}

/// The events that the run hands to producer `id`, in order.
pub open spec fn events_for(steps: Seq<Dispatch>, id: int) -> Seq<EventView>
    decreases steps.len(),
{
    if steps.len() == 0 {
        Seq::empty()
    } else if steps.last().id == id {
        events_for(steps.drop_last(), id).push(steps.last().event)
    } else {
        events_for(steps.drop_last(), id)
    }
}

/// The actions that producer `id` answers with during the run, in order.
pub open spec fn answers_of(fleet: Seq<ProducerView>, steps: Seq<Dispatch>, id: int) -> Seq<
    ActionView,
>
    decreases steps.len(),
{
    if steps.len() == 0 {
        Seq::empty()
    } else if steps.last().id == id {
        answers_of(fleet, steps.drop_last(), id).push(
            next(fleet_run(fleet, steps.drop_last())[id], steps.last().event).1,
        )
    } else {
        answers_of(fleet, steps.drop_last(), id)
    }
}

/// In any interleaving, a producer ends where it would have ended alone,
/// and answers as it would have answered alone, on the events that were
/// handed to it: what is handed to the others, and when, makes no
/// difference to it.
pub proof fn lemma_producers_independent(fleet: Seq<ProducerView>, steps: Seq<Dispatch>, id: int)
    requires
        0 <= id < fleet.len(),
    ensures
        fleet_run(fleet, steps).len() == fleet.len(),
        fleet_run(fleet, steps)[id] == run(fleet[id], events_for(steps, id)).0,
        answers_of(fleet, steps, id) == run(fleet[id], events_for(steps, id)).1,
    decreases steps.len(),
{
    if steps.len() > 0 {
        lemma_producers_independent(fleet, steps.drop_last(), id);
        if steps.last().id == id {
            let alone = events_for(steps, id);
            assert(alone.drop_last() =~= events_for(steps.drop_last(), id));
            assert(alone.last() == steps.last().event);
        }
    }
}

/// Two interleavings that hand a producer the same events make it answer
/// with the same actions, however the events of the other producers differ.
pub proof fn lemma_unaffected_by_others(
    fleet: Seq<ProducerView>,
    one: Seq<Dispatch>,
    other: Seq<Dispatch>,
    id: int,
)
    requires
        0 <= id < fleet.len(),
        events_for(one, id) == events_for(other, id),
    ensures
        answers_of(fleet, one, id) == answers_of(fleet, other, id),
        fleet_run(fleet, one)[id] == fleet_run(fleet, other)[id],
{
    lemma_producers_independent(fleet, one, id);
    lemma_producers_independent(fleet, other, id);
}

} // verus!
