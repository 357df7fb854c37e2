//! How often a producer publishes, on a clock.
//!
//! The producer itself has no clock: it answers events. Here each event of
//! a run comes with the instant at which the driver handed it over, counted
//! in seconds from the start of the run.
use crate::producer::{next, run, ActionView, EventView, Phase, ProducerView};
use vstd::prelude::*;

verus! {

/// An event and the instant at which the driver hands it to the producer.
pub struct Timed {
    pub at: nat,
    pub event: EventView,
}

/// The events of a timed run, without their instants.
pub open spec fn events_of(trace: Seq<Timed>) -> Seq<EventView> {
    Seq::new(trace.len(), |i: int| trace[i].event)
}

/// The producer after a timed run.
pub open spec fn state_after(p: ProducerView, trace: Seq<Timed>) -> ProducerView {
    run(p, events_of(trace)).0
}

/// What the producer answers to the last event of a timed run.
pub open spec fn last_answer(p: ProducerView, trace: Seq<Timed>) -> ActionView
    recommends
        trace.len() > 0,
{
    next(state_after(p, trace.drop_last()), trace.last().event).1
}

/// How long an action keeps the driver from coming back, at the least: the
/// length of a sleep, and nothing for any other action.
pub open spec fn pause(action: ActionView) -> nat {
    match action {
        ActionView::Sleep(seconds) => seconds as nat,
        _ => 0,
    }
}

/// The earliest instant at which the event after the run may come: the
/// instant of the last event, and the end of the sleep if the producer
/// answered it with one.
pub open spec fn due(p: ProducerView, trace: Seq<Timed>) -> nat {
    if trace.len() == 0 {
        0
    } else {
        trace.last().at + pause(last_answer(p, trace))
    }
}

/// Whether the driver keeps time: no event comes before it is due.
pub open spec fn timely(p: ProducerView, trace: Seq<Timed>) -> bool
    decreases trace.len(),
{
    trace.len() == 0 || (timely(p, trace.drop_last()) && trace.last().at >= due(
        p,
        trace.drop_last(),
    ))
}

/// By how much the events of a run came after they were due, in sum: the
/// time that fetches and deliveries took, and by which sleeps ran over.
pub open spec fn lateness(p: ProducerView, trace: Seq<Timed>) -> int
    decreases trace.len(),
{
    if trace.len() == 0 {
        0
    } else {
        lateness(p, trace.drop_last()) + (trace.last().at - due(p, trace.drop_last()))
    }
}

/// How many results the producer publishes in the run.
pub open spec fn publishes(p: ProducerView, trace: Seq<Timed>) -> nat
    decreases trace.len(),
{
    if trace.len() == 0 {
        0
    } else {
        publishes(p, trace.drop_last()) + if last_answer(p, trace) is Publish {
            1nat
        } else {
            0nat
        }
    }
}

/// How many results the producer publishes in the run up to the instant
/// `deadline`.
pub open spec fn published_by(p: ProducerView, trace: Seq<Timed>, deadline: nat) -> nat
    decreases trace.len(),
{
    if trace.len() == 0 {
        0
    } else {
        published_by(p, trace.drop_last(), deadline) + if last_answer(p, trace) is Publish
            && trace.last().at <= deadline {
            1nat
        } else {
            0nat
        }
    }
}

/// How many sleeps the producer asks for in the run.
pub open spec fn sleeps(p: ProducerView, trace: Seq<Timed>) -> nat
    decreases trace.len(),
{
    if trace.len() == 0 {
        0
    } else {
        sleeps(p, trace.drop_last()) + if last_answer(p, trace) is Sleep {
            1nat
        } else {
            0nat
        }
    }
}

/// The producer after a run is the producer after all but the last event,
/// moved by the last event.
pub proof fn lemma_state_step(p: ProducerView, trace: Seq<Timed>)
    requires
        trace.len() > 0,
    ensures
        state_after(p, trace) == next(state_after(p, trace.drop_last()), trace.last().event).0,
        state_after(p, trace).interval == p.interval,
        state_after(p, trace.drop_last()).interval == p.interval,
    decreases trace.len(),
{
    let events = events_of(trace);
    assert(events.drop_last() =~= events_of(trace.drop_last()));
    assert(events.last() == trace.last().event);
    if trace.len() > 1 {
        lemma_state_step(p, trace.drop_last());
    } else {
        assert(events_of(trace.drop_last()) =~= Seq::<EventView>::empty());
    }
    crate::producer::lemma_next_keeps_descriptor(
        state_after(p, trace.drop_last()),
        trace.last().event,
    );
}

/// A product grows by one factor when the other grows by one.
proof fn lemma_times_next(count: int, interval: int)
    ensures
        (count + 1) * interval == count * interval + interval,
        (count - 1) * interval == count * interval - interval,
{
    assert((count + 1) * interval == count * interval + interval) by (nonlinear_arith);
    assert((count - 1) * interval == count * interval - interval) by (nonlinear_arith);
}

/// So many intervals as fit before the deadline are no more than its
/// quotient by the interval.
proof fn lemma_fits(count: int, interval: int, deadline: int)
    requires
        interval > 0,
        0 <= count,
        count * interval <= deadline,
    ensures
        count <= deadline / interval,
{
    assert(count <= deadline / interval) by (nonlinear_arith)
        requires
            interval > 0,
            count * interval <= deadline,
    ;
}

/// Publishes are an interval apart: before the producer can publish for
/// the `n`-th time after the first, `n` intervals have passed.
pub proof fn lemma_spacing(p: ProducerView, trace: Seq<Timed>, deadline: nat)
    requires
        p.interval > 0,
        timely(p, trace),
    ensures
        published_by(p, trace, deadline) <= publishes(p, trace),
        published_by(p, trace, deadline) <= deadline / (p.interval as nat) + 1,
        state_after(p, trace).phase == Phase::Publishing ==> due(p, trace) >= (publishes(p, trace)
            - 1) * p.interval,
        state_after(p, trace).phase != Phase::Publishing && state_after(p, trace).phase
            != Phase::Stopped ==> due(p, trace) >= publishes(p, trace) * p.interval,
    decreases trace.len(),
{
    let interval = p.interval as int;
    if trace.len() == 0 {
        assert(0 * interval == 0);
        assert((0 - 1) * interval <= 0) by (nonlinear_arith)
            requires
                interval > 0,
        ;
    } else {
        let before = trace.drop_last();
        lemma_spacing(p, before, deadline);
        lemma_state_step(p, trace);
        let count = publishes(p, before) as int;
        lemma_times_next(count, interval);
        if last_answer(p, trace) is Publish && trace.last().at <= deadline {
            lemma_fits(count, interval, deadline as int);
        }
    }
}

/// The quotient rounded up.
pub open spec fn div_ceil(a: nat, b: nat) -> nat
    recommends
        b > 0,
{
    (a + b - 1) as nat / b
}

/// However long the fetches and deliveries of a run take, a producer with
/// interval `I` publishes at most `T / I + 1` results up to the instant `T`
/// (the quotient rounded down, and so rounded up as well), if the driver
/// lets every sleep run its length.
pub proof fn lemma_publishes_at_most(p: ProducerView, trace: Seq<Timed>, deadline: nat)
    requires
        p.interval > 0,
        timely(p, trace),
    ensures
        published_by(p, trace, deadline) <= deadline / (p.interval as nat) + 1,
        published_by(p, trace, deadline) <= div_ceil(deadline, p.interval as nat) + 1,
{
    lemma_spacing(p, trace, deadline);
    vstd::arithmetic::div_mod::lemma_div_is_ordered(
        deadline as int,
        deadline + p.interval - 1,
        p.interval as int,
    );
}

/// For how long the producer asks the driver to stay away in the run, in
/// sum.
pub open spec fn paused(p: ProducerView, trace: Seq<Timed>) -> nat
    decreases trace.len(),
{
    if trace.len() == 0 {
        0
    } else {
        paused(p, trace.drop_last()) + pause(last_answer(p, trace))
    }
}

/// The time of a run is made of its pauses and its lateness.
pub proof fn lemma_due_is_paused_and_late(p: ProducerView, trace: Seq<Timed>)
    ensures
        due(p, trace) == paused(p, trace) + lateness(p, trace),
    decreases trace.len(),
{
    if trace.len() > 0 {
        lemma_due_is_paused_and_late(p, trace.drop_last());
    }
}

/// Every sleep of a producer lasts its interval.
pub proof fn lemma_paused_is_sleeps(p: ProducerView, trace: Seq<Timed>)
    ensures
        paused(p, trace) == sleeps(p, trace) * p.interval,
    decreases trace.len(),
{
    if trace.len() == 0 {
        assert(0 * (p.interval as int) == 0);
    } else {
        lemma_paused_is_sleeps(p, trace.drop_last());
        lemma_state_step(p, trace);
        lemma_times_next(sleeps(p, trace.drop_last()) as int, p.interval as int);
    }
}

/// A producer that starts idle sleeps only after it has published.
pub proof fn lemma_sleeps_follow_publishes(p: ProducerView, trace: Seq<Timed>)
    requires
        p.phase == Phase::Idle,
    ensures
        sleeps(p, trace) <= publishes(p, trace),
        state_after(p, trace).phase == Phase::Publishing ==> sleeps(p, trace) + 1 <= publishes(
            p,
            trace,
        ),
    decreases trace.len(),
{
    if trace.len() > 0 {
        lemma_sleeps_follow_publishes(p, trace.drop_last());
        lemma_state_step(p, trace);
    } else {
        assert(events_of(trace) =~= Seq::<EventView>::empty());
    }
}

/// With a driver that keeps time, lateness is never negative and never
/// shrinks, and the clock never runs backwards.
pub proof fn lemma_timely_grows(p: ProducerView, trace: Seq<Timed>)
    requires
        timely(p, trace),
    ensures
        0 <= lateness(p, trace),
        trace.len() > 0 ==> lateness(p, trace.drop_last()) <= lateness(p, trace),
        trace.len() > 1 ==> trace.drop_last().last().at <= trace.last().at,
    decreases trace.len(),
{
    if trace.len() > 0 {
        lemma_timely_grows(p, trace.drop_last());
    }
}

/// Up to an instant that the run has not passed, every publish counts.
pub proof fn lemma_all_counted(p: ProducerView, trace: Seq<Timed>, deadline: nat)
    requires
        timely(p, trace),
        trace.len() > 0 ==> trace.last().at <= deadline,
    ensures
        published_by(p, trace, deadline) == publishes(p, trace),
    decreases trace.len(),
{
    if trace.len() > 0 {
        lemma_timely_grows(p, trace);
        lemma_all_counted(p, trace.drop_last(), deadline);
    }
}

/// Fewer than `count + 2` intervals before the deadline leave room for at
/// most `count + 1` whole ones.
proof fn lemma_room(count: int, interval: int, deadline: int)
    requires
        interval > 0,
        0 <= deadline,
        deadline - deadline % interval < (count + 2) * interval,
    ensures
        deadline / interval - 1 <= count,
{
    vstd::arithmetic::div_mod::lemma_fundamental_div_mod(deadline, interval);
    let whole = deadline / interval;
    assert(whole < count + 2) by (nonlinear_arith)
        requires
            interval > 0,
            interval * whole < (count + 2) * interval,
    ;
}

/// A producer with interval `I` that starts idle publishes at least
/// `T / I - 1` results up to the instant `T` (the quotient rounded down),
/// if the run goes on beyond `T` and the driver is late by no more than two
/// intervals and what `T` has over a whole number of intervals, all
/// fetches, deliveries and overrun sleeps taken together.
pub proof fn lemma_publishes_at_least(p: ProducerView, trace: Seq<Timed>, deadline: nat)
    requires
        p.interval > 0,
        p.phase == Phase::Idle,
        timely(p, trace),
        trace.len() > 0,
        trace.last().at > deadline,
        lateness(p, trace) <= 2 * p.interval + deadline % (p.interval as nat),
    ensures
        published_by(p, trace, deadline) >= deadline / (p.interval as nat) - 1,
    decreases trace.len(),
{
    let before = trace.drop_last();
    lemma_timely_grows(p, trace);
    if before.len() > 0 && before.last().at > deadline {
        lemma_publishes_at_least(p, before, deadline);
    } else {
        lemma_all_counted(p, before, deadline);
        lemma_sleeps_follow_publishes(p, before);
        lemma_due_is_paused_and_late(p, before);
        lemma_paused_is_sleeps(p, before);
        let interval = p.interval as int;
        let count = sleeps(p, before) as int;
        assert(trace.last().at == count * interval + lateness(p, trace));
        assert((count + 2) * interval == count * interval + 2 * interval) by (nonlinear_arith);
        lemma_room(count, interval, deadline as int);
    }
}

} // verus!
