//! What reaches a consumer, over any course of events at the broadcaster.
//!
//! A course of events is a sequence of [`Step`]s. The laws here say which
//! texts a consumer has been handed and which still wait for it, however the
//! publishes, the receives and the comings and goings of other consumers are
//! interleaved.

use crate::broadcast::{Delivered, Hub, Queue};
use vstd::prelude::*;

verus! {

/// One event at the broadcaster.
pub enum Step {
    /// A text is published.
    Publish(Seq<char>),
    /// One more consumer attaches.
    Subscribe,
    /// The consumer with this number detaches.
    Unsubscribe(u64),
    /// The consumer with this number asks for its next text.
    Receive(u64),
    /// The broadcaster is closed.
    Close,
}

/// The broadcaster after one event.
pub open spec fn step(hub: Hub, event: Step) -> Hub {
    match event {
        Step::Publish(text) => hub.publish(text),
        Step::Subscribe => hub.subscribe(),
        Step::Unsubscribe(id) => hub.unsubscribe(id),
        Step::Receive(id) => hub.receive(id),
        Step::Close => hub.close(),
    }
}

/// The broadcaster after the events `steps`, in order.
pub open spec fn run(hub: Hub, steps: Seq<Step>) -> Hub
    decreases steps.len(),
{
    if steps.len() == 0 {
        hub
    } else {
        step(run(hub, steps.drop_last()), steps.last())
    }
}

/// The texts that the broadcaster accepted over `steps`, in order: those
/// published while it was open.
pub open spec fn published(hub: Hub, steps: Seq<Step>) -> Queue
    decreases steps.len(),
{
    if steps.len() == 0 {
        Seq::empty()
    } else {
        let earlier = published(hub, steps.drop_last());
        match steps.last() {
            Step::Publish(text) => if run(hub, steps.drop_last()).closed {
                earlier
            } else {
                earlier.push(text)
            },
            _ => earlier,
        }
    }
}

/// The texts that consumer `id` was handed over `steps`, in order.
pub open spec fn received(hub: Hub, steps: Seq<Step>, id: u64) -> Queue
    decreases steps.len(),
{
    if steps.len() == 0 {
        Seq::empty()
    } else {
        let earlier = received(hub, steps.drop_last(), id);
        match (steps.last(), run(hub, steps.drop_last()).next(id)) {
            (Step::Receive(asked), Delivered::Text(text)) => if asked == id {
                earlier.push(text)
            } else {
                earlier
            },
            _ => earlier,
        }
    }
}

/// Whether consumer `id` stays attached over `steps`: none of them detaches
/// it.
pub open spec fn stays(steps: Seq<Step>, id: u64) -> bool {
    forall|i: int| 0 <= i < steps.len() ==> #[trigger] steps[i] != Step::Unsubscribe(id)
}

/// `count` times the event that consumer `id` asks for its next text.
pub open spec fn receives(id: u64, count: nat) -> Seq<Step> {
    Seq::new(count, |i: int| Step::Receive(id))
}

/// Whether two broadcasters are the same to consumer `id`.
pub open spec fn alike(a: Hub, b: Hub, id: u64) -> bool {
    &&& a.closed == b.closed
    &&& a.next_id == b.next_id
    &&& a.attached(id) == b.attached(id)
    &&& a.attached(id) ==> a.queues[id] == b.queues[id]
}

/// A broadcaster in order is in order after any one event.
pub proof fn lemma_step_wf(hub: Hub, event: Step)
    requires
        hub.wf(),
    ensures
        step(hub, event).wf(),
{
    match event {
        Step::Publish(text) => {
            assert(hub.publish(text).queues.dom() =~= hub.queues.dom());
        },
        _ => {},
    }
}

/// A broadcaster in order stays in order, whatever happens.
pub proof fn lemma_run_wf(hub: Hub, steps: Seq<Step>)
    requires
        hub.wf(),
    ensures
        run(hub, steps).wf(),
    decreases steps.len(),
{
    if steps.len() > 0 {
        lemma_run_wf(hub, steps.drop_last());
        lemma_step_wf(run(hub, steps.drop_last()), steps.last());
    }
}

/// Events one after the other: the second course starts where the first
/// ended, and a consumer is handed what the first course hands it, then what
/// the second does.
pub proof fn lemma_run_concat(hub: Hub, first: Seq<Step>, second: Seq<Step>, id: u64)
    ensures
        run(hub, first + second) == run(run(hub, first), second),
        published(hub, first + second) == published(hub, first) + published(
            run(hub, first),
            second,
        ),
        received(hub, first + second, id) == received(hub, first, id) + received(
            run(hub, first),
            second,
            id,
        ),
    decreases second.len(),
{
    if second.len() == 0 {
        assert(first + second =~= first);
    } else {
        assert((first + second).drop_last() =~= first + second.drop_last());
        lemma_run_concat(hub, first, second.drop_last(), id);
    }
}

/// Delivery in publish order, without loss and without replay.
///
/// Over any course of events that does not detach consumer `id`, what the
/// consumer was handed, followed by what still waits for it, is what waited
/// for it at the start followed by every text published since, each once and
/// in publish order.
pub proof fn lemma_delivery(hub: Hub, steps: Seq<Step>, id: u64)
    requires
        hub.wf(),
        hub.attached(id),
        stays(steps, id),
    ensures
        run(hub, steps).attached(id),
        received(hub, steps, id) + run(hub, steps).queues[id] == hub.queues[id] + published(
            hub,
            steps,
        ),
    decreases steps.len(),
{
    if steps.len() == 0 {
        assert(received(hub, steps, id) + hub.queues[id] =~= hub.queues[id] + published(
            hub,
            steps,
        ));
    } else {
        let earlier = steps.drop_last();
        assert(stays(earlier, id)) by {
            assert forall|i: int| 0 <= i < earlier.len() implies #[trigger] earlier[i]
                != Step::Unsubscribe(id) by {
                assert(earlier[i] == steps[i]);
            }
        }
        lemma_delivery(hub, earlier, id);
        lemma_run_wf(hub, earlier);
        let handed = received(hub, earlier, id);
        let waiting = run(hub, earlier).queues[id];
        match steps.last() {
            Step::Publish(text) => {
                assert(handed + waiting.push(text) =~= (handed + waiting).push(text));
            },
            Step::Receive(asked) => {
                if asked == id && waiting.len() > 0 {
                    assert(handed.push(waiting.first()) + waiting.drop_first() =~= handed
                        + waiting);
                }
            },
            _ => {},
        }
    }
}

/// A consumer that asks as often as texts wait for it is handed all of
/// them, oldest first, and none is left.
pub proof fn lemma_drain(hub: Hub, id: u64, count: nat)
    requires
        hub.attached(id),
        count <= hub.queues[id].len(),
    ensures
        received(hub, receives(id, count), id) == hub.queues[id].take(count as int),
        run(hub, receives(id, count)).attached(id),
        run(hub, receives(id, count)).queues[id] == hub.queues[id].skip(count as int),
        run(hub, receives(id, count)).closed == hub.closed,
    decreases count,
{
    if count > 0 {
        let fewer = (count - 1) as nat;
        assert(receives(id, count).drop_last() =~= receives(id, fewer));
        lemma_drain(hub, id, fewer);
    }
}

/// A consumer that subscribes before the first of a series of publishes
/// receives exactly the texts of the series, in publish order.
///
/// The consumer attaches to `hub`; then the events `steps` take their
/// course, the consumer's own receives among them, in any order but without
/// detaching it. At any such moment the consumer has been handed a starting
/// piece of what was published since it attached, and the rest waits for it:
/// once it has asked for that too, it has been handed every text published
/// since it attached, each once and in publish order, and nothing else.
pub proof fn lemma_subscribed_before(hub: Hub, steps: Seq<Step>)
    requires
        hub.wf(),
        hub.has_room(),
        stays(steps, hub.next_id),
    ensures
        ({
            let id = hub.next_id;
            let joined = hub.subscribe();
            let waiting = run(joined, steps).queues[id];
            &&& run(joined, steps).attached(id)
            &&& received(joined, steps, id) + waiting == published(joined, steps)
            &&& forall|i: int|
                0 <= i < received(joined, steps, id).len() ==> #[trigger] received(
                    joined,
                    steps,
                    id,
                )[i] == published(joined, steps)[i]
            &&& received(joined, steps + receives(id, waiting.len()), id) == published(
                joined,
                steps,
            )
        }),
{
    let id = hub.next_id;
    let joined = hub.subscribe();
    lemma_delivery(joined, steps, id);
    let end = run(joined, steps);
    let waiting = end.queues[id];
    let handed = received(joined, steps, id);
    assert forall|i: int| 0 <= i < handed.len() implies #[trigger] handed[i] == published(
        joined,
        steps,
    )[i] by {
        assert((handed + waiting)[i] == handed[i]);
    }
    lemma_drain(end, id, waiting.len());
    lemma_run_concat(joined, steps, receives(id, waiting.len()), id);
}

/// A consumer that subscribes after one publish and before the next never
/// receives the first text, and receives the later ones in publish order.
///
/// `first` is published to `hub`, then the consumer attaches, then the
/// events `rest` take their course without detaching it. Nothing waits for
/// the consumer when it attaches, and what it is handed over `rest`,
/// followed by what still waits for it, is what was published over `rest`,
/// each text once and in publish order: the text it is handed as its first,
/// second, third is the first, second, third published after it attached,
/// never the one published before.
pub proof fn lemma_subscribed_between(hub: Hub, first: Seq<char>, rest: Seq<Step>)
    requires
        hub.wf(),
        hub.has_room(),
        stays(rest, hub.next_id),
    ensures
        ({
            let id = hub.next_id;
            let joined = hub.publish(first).subscribe();
            let waiting = run(joined, rest).queues[id];
            &&& joined.queues[id] == Queue::empty()
            &&& run(joined, rest).attached(id)
            &&& received(joined, rest, id) + waiting == published(joined, rest)
            &&& forall|i: int|
                0 <= i < received(joined, rest, id).len() ==> #[trigger] received(
                    joined,
                    rest,
                    id,
                )[i] == published(joined, rest)[i]
            &&& received(joined, rest + receives(id, waiting.len()), id) == published(
                joined,
                rest,
            )
        }),
{
    let after_first = hub.publish(first);
    lemma_step_wf(hub, Step::Publish(first));
    lemma_subscribed_before(after_first, rest);
}

/// Whatever happens, two broadcasters that are the same to a consumer stay
/// the same to it and hand it the same texts.
pub proof fn lemma_alike(a: Hub, b: Hub, steps: Seq<Step>, id: u64)
    requires
        alike(a, b, id),
    ensures
        alike(run(a, steps), run(b, steps), id),
        received(a, steps, id) == received(b, steps, id),
    decreases steps.len(),
{
    if steps.len() > 0 {
        lemma_alike(a, b, steps.drop_last(), id);
    }
}

/// Detaching one consumer in mid-stream changes nothing for any other.
///
/// Take any course of events and detach consumer `leaver` at any point of
/// it. Any other consumer is handed the same texts in the same order as if
/// `leaver` had stayed, and the same texts wait for it at the end.
pub proof fn lemma_unsubscribe_leaves_others(
    hub: Hub,
    before: Seq<Step>,
    after: Seq<Step>,
    leaver: u64,
    other: u64,
)
    requires
        leaver != other,
    ensures
        ({
            let with_leave = before + seq![Step::Unsubscribe(leaver)] + after;
            let without = before + after;
            &&& received(hub, with_leave, other) == received(hub, without, other)
            &&& alike(run(hub, with_leave), run(hub, without), other)
        }),
{
    let leave = seq![Step::Unsubscribe(leaver)];
    let mid = run(hub, before);
    reveal_with_fuel(run, 2);
    reveal_with_fuel(received, 2);
    lemma_run_concat(hub, before, leave, other);
    lemma_run_concat(hub, before + leave, after, other);
    lemma_run_concat(hub, before, after, other);
    lemma_alike(mid.unsubscribe(leaver), mid, after, other);
}

} // verus!
