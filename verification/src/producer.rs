//! One producer's loop as a state machine: fetch, publish, sleep, repeat.
//!
//! The machine decides; a driver performs. The driver hands the machine an
//! event, carries out the action that the machine answers with, and comes
//! back with the event that reports how the action ended.
use crate::aggregator::{Tagged, TaggedResult};
use vstd::prelude::*;

verus! {

/// What a producer is waiting for.
#[derive(Debug, Clone, Copy, PartialEq, Eq, Structural)]
pub enum Phase {
    /// Registered, not started.
    Idle,
    /// A fetch is running.
    Fetching,
    /// A result is on its way into the channel.
    Publishing,
    /// The interval is running down.
    Sleeping,
    /// The loop has ended.
    Stopped,
}

/// What the driver reports to a producer.
#[derive(Debug, Clone, PartialEq, Eq)]
pub enum Event {
    /// The loop is to begin.
    Started,
    /// The fetch returned: its text, or `None` when it failed.
    Fetched(Option<String>),
    /// The channel took the result.
    Delivered,
    /// The channel is closed: nobody reads any more.
    ChannelClosed,
    /// The sleep is over.
    Woke,
}

/// What a producer asks the driver to do next.
#[derive(Debug, Clone, PartialEq, Eq)]
pub enum Action {
    /// Call the fetch function.
    Fetch,
    /// Send the result into the channel.
    Publish(TaggedResult),
    /// Sleep for this many seconds.
    Sleep(u32),
    /// End the loop.
    Stop,
}

/// Why a descriptor is not accepted.
#[derive(Debug, Clone, Copy, PartialEq, Eq, Structural)]
pub enum RegisterError {
    /// The interval is zero.
    ZeroInterval,
    /// Another producer has the same name.
    DuplicateName,
}

/// What a producer is made from.
#[derive(Debug, Clone, PartialEq, Eq)]
pub struct Descriptor {
    /// The key under which the producer publishes.
    pub name: String,
    /// Seconds between a delivery and the next fetch; more than zero.
    pub interval: u32,
    /// The text that is published when a fetch fails.
    pub fallback: String,
    /// After how many deliveries the loop ends; `None` for never.
    pub limit: Option<u64>,
}

/// An event as the contracts see it.
pub enum EventView {
    Started,
    Fetched(Option<Seq<char>>),
    Delivered,
    ChannelClosed,
    Woke,
}

/// An action as the contracts see it.
pub enum ActionView {
    Fetch,
    Publish(Tagged),
    Sleep(u32),
    Stop,
}

/// A producer as the contracts see it.
pub struct ProducerView {
    pub name: Seq<char>,
    pub interval: u32,
    pub fallback: Seq<char>,
    /// Deliveries left before the loop ends; `None` for no limit.
    pub remaining: Option<u64>,
    pub phase: Phase,
}

/// The text of a fetch outcome.
pub open spec fn outcome_view(outcome: Option<String>) -> Option<Seq<char>> {
    match outcome {
        Some(text) => Some(text@),
        None => None,
    }
}

impl View for Event {
    type V = EventView;

    open spec fn view(&self) -> EventView {
        match *self {
            Event::Started => EventView::Started,
            Event::Fetched(outcome) => EventView::Fetched(outcome_view(outcome)),
            Event::Delivered => EventView::Delivered,
            Event::ChannelClosed => EventView::ChannelClosed,
            Event::Woke => EventView::Woke,
        }
    }
}

impl View for Action {
    type V = ActionView;

    open spec fn view(&self) -> ActionView {
        match *self {
            Action::Fetch => ActionView::Fetch,
            Action::Publish(result) => ActionView::Publish(result@),
            Action::Sleep(seconds) => ActionView::Sleep(seconds),
            Action::Stop => ActionView::Stop,
        }
    }
}

impl View for Descriptor {
    type V = ProducerView;

    /// The producer that the descriptor describes, before it is started.
    open spec fn view(&self) -> ProducerView {
        ProducerView {
            name: self.name@,
            interval: self.interval,
            fallback: self.fallback@,
            remaining: self.limit,
            phase: Phase::Idle,
        }
    }
}

/// The producer in another phase.
pub open spec fn in_phase(p: ProducerView, phase: Phase) -> ProducerView {
    ProducerView { phase, ..p }
}

/// The producer after it has stopped for good.
pub open spec fn stopped(p: ProducerView) -> (ProducerView, ActionView) {
    (in_phase(p, Phase::Stopped), ActionView::Stop)
}

/// What is published for a fetch outcome: the fetched text, or the fallback
/// when the fetch failed.
pub open spec fn published(p: ProducerView, outcome: Option<Seq<char>>) -> Tagged {
    Tagged {
        name: p.name,
        value: match outcome {
            Some(text) => text,
            None => p.fallback,
        },
    }
}

/// The producer after a delivery, and what it does then: it sleeps for its
/// interval, unless this was the last delivery that its limit allows.
pub open spec fn after_delivery(p: ProducerView) -> (ProducerView, ActionView) {
    match p.remaining {
        None => (in_phase(p, Phase::Sleeping), ActionView::Sleep(p.interval)),
        Some(left) => if left <= 1 {
            stopped(ProducerView { remaining: Some(0), ..p })
        } else {
            (
                ProducerView { remaining: Some((left - 1) as u64), phase: Phase::Sleeping, ..p },
                ActionView::Sleep(p.interval),
            )
        },
    }
}

/// The transition function: the producer after the event, and the action
/// that it answers with. An event that does not report on what the producer
/// is waiting for ends the loop.
pub open spec fn next(p: ProducerView, event: EventView) -> (ProducerView, ActionView) {
    match (p.phase, event) {
        (Phase::Idle, EventView::Started) => if p.remaining == Some(0u64) {
            stopped(p)
        } else {
            (in_phase(p, Phase::Fetching), ActionView::Fetch)
        },
        (Phase::Fetching, EventView::Fetched(outcome)) => (
            in_phase(p, Phase::Publishing),
            ActionView::Publish(published(p, outcome)),
        ),
        (Phase::Publishing, EventView::Delivered) => after_delivery(p),
        (Phase::Sleeping, EventView::Woke) => (in_phase(p, Phase::Fetching), ActionView::Fetch),
        _ => stopped(p),
    }
}

/// No event changes what the producer was registered with.
pub proof fn lemma_next_keeps_descriptor(p: ProducerView, event: EventView)
    ensures
        next(p, event).0.name == p.name,
        next(p, event).0.interval == p.interval,
        next(p, event).0.fallback == p.fallback,
{
}

/// Whatever a producer publishes, it publishes under its own name.
pub proof fn lemma_publishes_under_own_name(p: ProducerView, event: EventView)
    ensures
        next(p, event).1 matches ActionView::Publish(result) ==> result.name == p.name,
{
}

/// One producer: its descriptor and where it is in its loop.
pub struct Producer {
    name: String,
    interval: u32,
    fallback: String,
    remaining: Option<u64>,
    phase: Phase,
}

impl View for Producer {
    type V = ProducerView;

    closed spec fn view(&self) -> ProducerView {
        ProducerView {
            name: self.name@,
            interval: self.interval,
            fallback: self.fallback@,
            remaining: self.remaining,
            phase: self.phase,
        }
    }
}

impl Producer {
    /// A producer that waits to be started. A descriptor with a zero
    /// interval is refused, and no other.
    pub fn new(descriptor: Descriptor) -> (r: Result<Producer, RegisterError>)
        ensures
            descriptor.interval == 0 ==> r == Err::<Producer, RegisterError>(
                RegisterError::ZeroInterval,
            ),
            descriptor.interval != 0 ==> r is Ok && r->Ok_0@ == descriptor@,
    {
        if descriptor.interval == 0 {
            return Err(RegisterError::ZeroInterval);
        }
        let Descriptor { name, interval, fallback, limit } = descriptor;
        Ok(Producer { name, interval, fallback, remaining: limit, phase: Phase::Idle })
    }

    /// Takes an event and answers with the next action.
    pub fn step(&mut self, event: Event) -> (action: Action)
        ensures
            (final(self)@, action@) == next(old(self)@, event@),
    {
        match event {
            Event::Started => {
                if let Phase::Idle = self.phase {
                    if let Some(0) = self.remaining {
                        self.phase = Phase::Stopped;
                        Action::Stop
                    } else {
                        self.phase = Phase::Fetching;
                        Action::Fetch
                    }
                } else {
                    self.phase = Phase::Stopped;
                    Action::Stop
                }
            },
            Event::Fetched(outcome) => {
                if let Phase::Fetching = self.phase {
                    self.phase = Phase::Publishing;
                    let value = match outcome {
                        Some(text) => text,
                        None => self.fallback.clone(),
                    };
                    Action::Publish(TaggedResult { name: self.name.clone(), value })
                } else {
                    self.phase = Phase::Stopped;
                    Action::Stop
                }
            },
            Event::Delivered => {
                if let Phase::Publishing = self.phase {
                    match self.remaining {
                        None => {
                            self.phase = Phase::Sleeping;
                            Action::Sleep(self.interval)
                        },
                        Some(left) => {
                            if left <= 1 {
                                self.remaining = Some(0);
                                self.phase = Phase::Stopped;
                                Action::Stop
                            } else {
                                self.remaining = Some(left - 1);
                                self.phase = Phase::Sleeping;
                                Action::Sleep(self.interval)
                            }
                        },
                    }
                } else {
                    self.phase = Phase::Stopped;
                    Action::Stop
                }
            },
            Event::ChannelClosed => {
                self.phase = Phase::Stopped;
                Action::Stop
            },
            Event::Woke => {
                if let Phase::Sleeping = self.phase {
                    self.phase = Phase::Fetching;
                    Action::Fetch
                } else {
                    self.phase = Phase::Stopped;
                    Action::Stop
                }
            },
        }
    }

    /// Whether the producer publishes under `name`.
    pub fn is_named(&self, name: &String) -> (r: bool)
        ensures
            r == (self@.name == name@),
    {
        self.name == *name
    }

    /// The key under which the producer publishes.
    pub fn name(&self) -> (r: &str)
        ensures
            r@ == self@.name,
    {
        self.name.as_str()
    }

    /// Seconds between a delivery and the next fetch.
    pub fn interval(&self) -> (r: u32)
        ensures
            r == self@.interval,
    {
        self.interval
    }

    /// How many deliveries are left before the loop ends; `None` when
    /// there is no limit.
    pub fn remaining(&self) -> (r: Option<u64>)
        ensures
            r == self@.remaining,
    {
        self.remaining
    }

    /// What the producer is waiting for.
    pub fn phase(&self) -> (r: Phase)
        ensures
            r == self@.phase,
    {
        self.phase
    }
}

/// The producer after a run of events, and the actions that it answered
/// with, one per event.
pub open spec fn run(p: ProducerView, events: Seq<EventView>) -> (ProducerView, Seq<ActionView>)
    decreases events.len(),
{
    if events.len() == 0 {
        (p, Seq::empty())
    } else {
        let before = run(p, events.drop_last());
        let last = next(before.0, events.last());
        (last.0, before.1.push(last.1))
    }
}

/// A run in two parts is the first part, then the second from where the
/// first ended.
pub proof fn lemma_run_concat(p: ProducerView, first: Seq<EventView>, second: Seq<EventView>)
    ensures
        run(p, first + second).0 == run(run(p, first).0, second).0,
        run(p, first + second).1 == run(p, first).1 + run(run(p, first).0, second).1,
    decreases second.len(),
{
    if second.len() == 0 {
        assert(first + second =~= first);
        assert(run(p, first).1 + Seq::<ActionView>::empty() =~= run(p, first).1);
    } else {
        let all = first + second;
        assert(all.drop_last() =~= first + second.drop_last());
        assert(all.last() == second.last());
        lemma_run_concat(p, first, second.drop_last());
        let mid = run(p, first).0;
        let before = run(mid, second.drop_last());
        let last = next(before.0, second.last());
        assert(run(p, all).1 =~= run(p, first).1 + before.1.push(last.1));
    }
}

/// The events of one round of the loop: the fetch returns, the result is
/// delivered, the sleep ends.
pub open spec fn round_events(outcome: Option<Seq<char>>) -> Seq<EventView> {
    seq![EventView::Fetched(outcome), EventView::Delivered, EventView::Woke]
}

/// The actions of one round of the loop: publish what the fetch gave, or
/// the fallback; sleep for the interval; fetch again.
pub open spec fn round_actions(p: ProducerView, outcome: Option<Seq<char>>) -> Seq<ActionView> {
    seq![
        ActionView::Publish(published(p, outcome)),
        ActionView::Sleep(p.interval),
        ActionView::Fetch,
    ]
}

/// The events of one round per fetch outcome.
pub open spec fn rounds_events(outcomes: Seq<Option<Seq<char>>>) -> Seq<EventView>
    decreases outcomes.len(),
{
    if outcomes.len() == 0 {
        Seq::empty()
    } else {
        rounds_events(outcomes.drop_last()) + round_events(outcomes.last())
    }
}

/// The actions of one round per fetch outcome.
pub open spec fn rounds_actions(p: ProducerView, outcomes: Seq<Option<Seq<char>>>) -> Seq<
    ActionView,
>
    decreases outcomes.len(),
{
    if outcomes.len() == 0 {
        Seq::empty()
    } else {
        rounds_actions(p, outcomes.drop_last()) + round_actions(p, outcomes.last())
    }
}

/// One round takes a fetching producer without a limit back to fetching,
/// whether the fetch succeeded or failed.
pub proof fn lemma_round(p: ProducerView, outcome: Option<Seq<char>>)
    requires
        p.phase == Phase::Fetching,
        p.remaining is None,
    ensures
        run(p, round_events(outcome)) == (p, round_actions(p, outcome)),
{
    let events = round_events(outcome);
    let e1 = events.drop_last();
    let e0 = e1.drop_last();
    assert(e0.drop_last() =~= Seq::<EventView>::empty());
    assert(e0.last() == EventView::Fetched(outcome));
    assert(e1.last() == EventView::Delivered);
    assert(events.last() == EventView::Woke);
    reveal_with_fuel(run, 4);
    assert(run(p, events).1 =~= round_actions(p, outcome));
}

/// A fetching producer without a limit goes through one full round per
/// fetch outcome, whatever the outcomes are: a failed fetch never ends the
/// loop, each result is published under the producer's name, and every
/// sleep lasts the interval.
pub proof fn lemma_rounds(p: ProducerView, outcomes: Seq<Option<Seq<char>>>)
    requires
        p.phase == Phase::Fetching,
        p.remaining is None,
    ensures
        run(p, rounds_events(outcomes)) == (p, rounds_actions(p, outcomes)),
    decreases outcomes.len(),
{
    if outcomes.len() > 0 {
        lemma_rounds(p, outcomes.drop_last());
        lemma_round(p, outcomes.last());
        lemma_run_concat(p, rounds_events(outcomes.drop_last()), round_events(outcomes.last()));
    }
}

/// The actions of `n` rounds in which the fallback is published.
pub open spec fn fallback_rounds(p: ProducerView, n: nat) -> Seq<ActionView> {
    rounds_actions(p, Seq::new(n, |i: int| None::<Seq<char>>))
}

/// When every fetch fails, every round publishes the fallback under the
/// producer's name, sleeps for the interval and fetches again.
pub proof fn lemma_failing_fetches_publish_fallback(p: ProducerView, n: nat)
    requires
        p.phase == Phase::Fetching,
        p.remaining is None,
    ensures
        run(p, rounds_events(Seq::new(n, |i: int| None::<Seq<char>>))) == (
            p,
            fallback_rounds(p, n),
        ),
        forall|k: int|
            0 <= k < n ==> {
                &&& #[trigger] fallback_rounds(p, n)[3 * k] == ActionView::Publish(
                    Tagged { name: p.name, value: p.fallback },
                )
                &&& fallback_rounds(p, n)[3 * k + 1] == ActionView::Sleep(p.interval)
                &&& fallback_rounds(p, n)[3 * k + 2] == ActionView::Fetch
            },
        fallback_rounds(p, n).len() == 3 * n,
    decreases n,
{
    let outcomes = Seq::new(n, |i: int| None::<Seq<char>>);
    lemma_rounds(p, outcomes);
    if n > 0 {
        let fewer = Seq::new((n - 1) as nat, |i: int| None::<Seq<char>>);
        assert(outcomes.drop_last() =~= fewer);
        lemma_failing_fetches_publish_fallback(p, (n - 1) as nat);
        let head = fallback_rounds(p, (n - 1) as nat);
        let tail = round_actions(p, None);
        assert(fallback_rounds(p, n) == head + tail);
        assert forall|k: int| 0 <= k < n implies {
            &&& #[trigger] fallback_rounds(p, n)[3 * k] == ActionView::Publish(
                Tagged { name: p.name, value: p.fallback },
            )
            &&& fallback_rounds(p, n)[3 * k + 1] == ActionView::Sleep(p.interval)
            &&& fallback_rounds(p, n)[3 * k + 2] == ActionView::Fetch
        } by {
            if k < n - 1 {
                assert(head[3 * k] == ActionView::Publish(
                    Tagged { name: p.name, value: p.fallback },
                ));
            } else {
                assert((head + tail)[3 * k] == tail[0]);
                assert((head + tail)[3 * k + 1] == tail[1]);
                assert((head + tail)[3 * k + 2] == tail[2]);
            }
        }
    }
}

/// How many of the actions ask for a fetch.
pub open spec fn fetches_asked(actions: Seq<ActionView>) -> nat
    decreases actions.len(),
{
    if actions.len() == 0 {
        0
    } else {
        fetches_asked(actions.drop_last()) + if actions.last() is Fetch {
            1nat
        } else {
            0nat
        }
    }
}

/// How many of the events report that a fetch returned.
pub open spec fn fetches_reported(events: Seq<EventView>) -> nat
    decreases events.len(),
{
    if events.len() == 0 {
        0
    } else {
        fetches_reported(events.drop_last()) + if events.last() is Fetched {
            1nat
        } else {
            0nat
        }
    }
}

/// At most one fetch is in flight: whatever events come in, a producer that
/// starts idle has asked for at most one fetch more than was reported back.
/// In the phases from which it asks for a fetch (idle and sleeping), and
/// while it publishes, every fetch it asked for has been reported back.
pub proof fn lemma_one_fetch_in_flight(p: ProducerView, events: Seq<EventView>)
    requires
        p.phase == Phase::Idle,
    ensures
        fetches_asked(run(p, events).1) <= fetches_reported(events) + 1,
        run(p, events).0.phase != Phase::Fetching && run(p, events).0.phase != Phase::Stopped
            ==> fetches_asked(run(p, events).1) <= fetches_reported(events),
    decreases events.len(),
{
    if events.len() > 0 {
        lemma_one_fetch_in_flight(p, events.drop_last());
        let before = run(p, events.drop_last());
        let last = next(before.0, events.last());
        assert(run(p, events).1.drop_last() =~= before.1);
        assert(run(p, events).1.last() == last.1);
    }
}

} // verus!
