//! The broadcaster: one stream of published texts, handed to every consumer
//! that is attached when a text is published.
//!
//! Each consumer has a queue of its own, so that a slow consumer holds up
//! neither the publisher nor the other consumers. A queue has no bound: a
//! publish never fails for want of room and never drops a text.

use std::collections::VecDeque;
use vstd::prelude::*;

verus! {

/// The pending texts of one consumer, oldest first.
pub type Queue = Seq<Seq<char>>;

/// What a [`Broadcaster`] stands for.
pub struct Hub {
    /// The queue of each attached consumer, by the consumer's number.
    pub queues: Map<u64, Queue>,
    /// The number that the next consumer gets. Every number below it has
    /// been given out, and none is given out twice.
    pub next_id: u64,
    /// Whether the broadcaster has been closed to further publishes.
    pub closed: bool,
}

/// What a consumer gets when it asks for its next text.
pub enum Delivered {
    /// The oldest pending text.
    Text(Seq<char>),
    /// Nothing is pending; more may come.
    Idle,
    /// Nothing is pending and nothing will come: the broadcaster is closed,
    /// or the consumer is not attached.
    Closed,
}

impl Hub {
    /// A broadcaster that nobody has used yet.
    pub open spec fn fresh() -> Hub {
        Hub { queues: Map::empty(), next_id: 0, closed: false }
    }

    /// Whether the attached consumers are finitely many and their numbers
    /// have been given out.
    pub open spec fn wf(self) -> bool {
        &&& self.queues.dom().finite()
        &&& forall|id: u64| #[trigger] self.queues.contains_key(id) ==> id < self.next_id
    }

    /// Whether consumer `id` is attached.
    pub open spec fn attached(self, id: u64) -> bool {
        self.queues.contains_key(id)
    }

    /// Whether there is a number left for one more consumer.
    pub open spec fn has_room(self) -> bool {
        self.next_id < u64::MAX
    }

    /// After publishing `text`: every attached consumer has `text` at the end
    /// of its queue. A closed broadcaster takes no text.
    pub open spec fn publish(self, text: Seq<char>) -> Hub {
        if self.closed {
            self
        } else {
            Hub {
                queues: Map::new(
                    |id: u64| self.queues.contains_key(id),
                    |id: u64| self.queues[id].push(text),
                ),
                ..self
            }
        }
    }

    /// After attaching one more consumer, under the number `self.next_id`
    /// and with an empty queue. Without room nothing changes.
    pub open spec fn subscribe(self) -> Hub {
        if self.has_room() {
            Hub {
                queues: self.queues.insert(self.next_id, Seq::empty()),
                next_id: (self.next_id + 1) as u64,
                ..self
            }
        } else {
            self
        }
    }

    /// After detaching consumer `id`, with what was pending for it.
    pub open spec fn unsubscribe(self, id: u64) -> Hub {
        Hub { queues: self.queues.remove(id), ..self }
    }

    /// What consumer `id` gets when it asks for its next text.
    pub open spec fn next(self, id: u64) -> Delivered {
        if self.attached(id) && self.queues[id].len() > 0 {
            Delivered::Text(self.queues[id].first())
        } else if self.attached(id) && !self.closed {
            Delivered::Idle
        } else {
            Delivered::Closed
        }
    }

    /// After consumer `id` has been given its next text, if it had one.
    pub open spec fn receive(self, id: u64) -> Hub {
        if self.attached(id) && self.queues[id].len() > 0 {
            Hub { queues: self.queues.insert(id, self.queues[id].drop_first()), ..self }
        } else {
            self
        }
    }

    /// After closing: publishes are refused from now on. What is pending
    /// stays pending.
    pub open spec fn close(self) -> Hub {
        Hub { closed: true, ..self }
    }
}

/// The registration of one consumer with a [`Broadcaster`].
#[derive(Debug, PartialEq, Eq)]
pub struct ConsumerHandle {
    id: u64,
}

impl ConsumerHandle {
    /// The consumer's number.
    pub closed spec fn number(self) -> u64 {
        self.id
    }

    /// The consumer's number.
    pub fn id(&self) -> (id: u64)
        ensures
            id == self.number(),
    {
        self.id
    }
}

/// What a consumer gets from [`Broadcaster::receive`].
#[derive(Debug, PartialEq, Eq)]
pub enum Delivery {
    /// The oldest pending text.
    Text(String),
    /// Nothing is pending; more may come.
    Idle,
    /// Nothing is pending and nothing will come.
    Closed,
}

impl View for Delivery {
    type V = Delivered;

    open spec fn view(&self) -> Delivered {
        match self {
            Delivery::Text(text) => Delivered::Text(text@),
            Delivery::Idle => Delivered::Idle,
            Delivery::Closed => Delivered::Closed,
        }
    }
}

/// Why a text was not published.
#[derive(Clone, Copy, Debug, PartialEq, Eq, Structural)]
pub enum PublishError {
    /// The broadcaster has been closed.
    Closed,
}

struct Consumer {
    id: u64,
    pending: VecDeque<String>,
}

/// The texts of a queue.
spec fn texts(pending: Seq<String>) -> Queue {
    pending.map_values(|text: String| text@)
}

/// The registry of attached consumers, each with the texts that were
/// published since it attached and that it has not received yet.
pub struct Broadcaster {
    consumers: Vec<Consumer>,
    next_id: u64,
    closed: bool,
}

impl Broadcaster {
    /// Whether the registry is in order: no consumer is held twice, and each
    /// number held has been given out.
    pub closed spec fn wf(self) -> bool {
        &&& forall|i: int|
            0 <= i < self.consumers.len() ==> (#[trigger] self.consumers[i]).id < self.next_id
        &&& forall|i: int, j: int|
            0 <= i < j < self.consumers.len() ==> (#[trigger] self.consumers[i]).id != (
            #[trigger] self.consumers[j]).id
    }

    /// Whether some slot of the registry holds consumer `id`.
    spec fn holds(self, id: u64) -> bool {
        exists|i: int| 0 <= i < self.consumers.len() && (#[trigger] self.consumers[i]).id == id
    }

    /// The slot of consumer `id`.
    spec fn slot(self, id: u64) -> int {
        choose|i: int| 0 <= i < self.consumers.len() && (#[trigger] self.consumers[i]).id == id
    }
}

impl View for Broadcaster {
    type V = Hub;

    closed spec fn view(&self) -> Hub {
        Hub {
            queues: Map::new(
                |id: u64| self.holds(id),
                |id: u64| texts(self.consumers[self.slot(id)].pending@),
            ),
            next_id: self.next_id,
            closed: self.closed,
        }
    }
}

impl Broadcaster {
    /// A registry in order stands for a hub in order.
    pub proof fn lemma_view_wf(self)
        requires
            self.wf(),
        ensures
            self@.wf(),
    {
        self.lemma_slots();
    }

    /// How the registry's slots and the queues of the view go together.
    proof fn lemma_slots(self)
        requires
            self.wf(),
        ensures
            self@.wf(),
            forall|i: int|
                0 <= i < self.consumers.len() ==> self@.queues.contains_key(
                    (#[trigger] self.consumers[i]).id,
                ) && self@.queues[self.consumers[i].id] == texts(self.consumers[i].pending@),
            forall|id: u64| #[trigger]
                self@.queues.contains_key(id) ==> 0 <= self.slot(id) < self.consumers.len()
                    && self.consumers[self.slot(id)].id == id,
    {
        let ids = self.consumers@.map_values(|c: Consumer| c.id);
        assert forall|id: u64| self@.queues.contains_key(id) implies ids.to_set().contains(
            id,
        ) by {
            assert(ids[self.slot(id)] == id);
        }
        assert forall|id: u64| ids.to_set().contains(id) implies self@.queues.contains_key(
            id,
        ) by {
            let i = choose|i: int| 0 <= i < ids.len() && ids[i] == id;
            assert(self.consumers[i].id == id);
        }
        assert(self@.queues.dom() =~= ids.to_set());
        vstd::seq_lib::seq_to_set_is_finite(ids);
    }

    /// The registry stands for the queues `expected` when each slot's
    /// consumer has its queue there and nobody else has one there.
    proof fn lemma_queues(self, expected: Map<u64, Queue>)
        requires
            self.wf(),
            forall|i: int|
                0 <= i < self.consumers.len() ==> expected.contains_key(
                    (#[trigger] self.consumers[i]).id,
                ) && expected[self.consumers[i].id] == texts(self.consumers[i].pending@),
            forall|id: u64| #[trigger] expected.contains_key(id) ==> self.holds(id),
        ensures
            self@.queues == expected,
    {
        self.lemma_slots();
        assert forall|id: u64| #[trigger] self@.queues.contains_key(id) implies expected.contains_key(
            id,
        ) && self@.queues[id] == expected[id] by {
            assert(self.consumers[self.slot(id)].id == id);
        }
        assert(self@.queues =~= expected);
    }

    /// The slot of consumer `id`, if it is attached.
    fn position(&self, id: u64) -> (found: Option<usize>)
        ensures
            match found {
                Some(i) => i < self.consumers.len() && self.consumers[i as int].id == id,
                None => !self.holds(id),
            },
    {
        let mut i: usize = 0;
        while i < self.consumers.len()
            invariant
                i <= self.consumers.len(),
                forall|j: int| 0 <= j < i ==> (#[trigger] self.consumers[j]).id != id,
            decreases self.consumers.len() - i,
        {
            if self.consumers[i].id == id {
                return Some(i);
            }
            i += 1;
        }
        None
    }

    /// A broadcaster without consumers, open to publishes.
    pub fn new() -> (hub: Broadcaster)
        ensures
            hub.wf(),
            hub@ == Hub::fresh(),
    {
        let hub = Broadcaster { consumers: Vec::new(), next_id: 0, closed: false };
        proof {
            hub.lemma_queues(Map::empty());
        }
        hub
    }

    /// Whether the broadcaster has been closed.
    pub fn is_closed(&self) -> (closed: bool)
        ensures
            closed == self@.closed,
    {
        self.closed
    }

    /// Whether the consumer of `handle` is attached.
    pub fn is_attached(&self, handle: &ConsumerHandle) -> (attached: bool)
        ensures
            attached == self@.attached(handle.number()),
    {
        self.position(handle.id).is_some()
    }

    /// The number of texts that wait for the consumer of `handle`; none for
    /// a consumer that is not attached.
    pub fn pending(&self, handle: &ConsumerHandle) -> (count: usize)
        requires
            self.wf(),
        ensures
            count == if self@.attached(handle.number()) {
                self@.queues[handle.number()].len()
            } else {
                0
            },
    {
        proof {
            self.lemma_slots();
        }
        match self.position(handle.id) {
            Some(i) => self.consumers[i].pending.len(),
            None => 0,
        }
    }

    /// Attaches one more consumer, which will get every text published from
    /// now on, and none published before.
    ///
    /// There is no handle when the numbers for consumers have run out.
    pub fn subscribe(&mut self) -> (handle: Option<ConsumerHandle>)
        requires
            old(self).wf(),
        ensures
            final(self).wf(),
            final(self)@ == old(self)@.subscribe(),
            match handle {
                Some(h) => old(self)@.has_room() && h.number() == old(self)@.next_id,
                None => !old(self)@.has_room(),
            },
    {
        if self.next_id == u64::MAX {
            return None;
        }
        let id = self.next_id;
        let ghost before = *self;
        self.next_id = id + 1;
        self.consumers.push(Consumer { id, pending: VecDeque::new() });
        proof {
            before.lemma_slots();
            let expected = before@.subscribe().queues;
            assert(texts(self.consumers[before.consumers.len() as int].pending@) =~= Seq::empty());
            assert forall|k: u64| #[trigger] expected.contains_key(k) implies self.holds(k) by {
                if k == id {
                    assert(self.consumers[before.consumers.len() as int].id == k);
                } else {
                    assert(self.consumers[before.slot(k)].id == k);
                }
            }
            self.lemma_queues(expected);
        }
        Some(ConsumerHandle { id })
    }

    /// Detaches the consumer of `handle`. What was pending for it is
    /// dropped; the other consumers and their queues stay as they are.
    /// Detaching a consumer that is not attached changes nothing.
    pub fn unsubscribe(&mut self, handle: ConsumerHandle)
        requires
            old(self).wf(),
        ensures
            final(self).wf(),
            final(self)@ == old(self)@.unsubscribe(handle.number()),
    {
        self.detach(&handle)
    }

    /// Detaches the consumer of `handle` and leaves the handle with its
    /// holder, for whom it is of no further use.
    pub fn detach(&mut self, handle: &ConsumerHandle)
        requires
            old(self).wf(),
        ensures
            final(self).wf(),
            final(self)@ == old(self)@.unsubscribe(handle.number()),
    {
        let ghost before = *self;
        let ghost expected = before@.unsubscribe(handle.id).queues;
        proof {
            before.lemma_slots();
        }
        match self.position(handle.id) {
            Some(i) => {
                self.consumers.remove(i);
                proof {
                    assert forall|k: u64| #[trigger] expected.contains_key(k) implies self.holds(
                        k,
                    ) by {
                        let j = before.slot(k);
                        if j < i {
                            assert(self.consumers[j].id == k);
                        } else {
                            assert(self.consumers[j - 1].id == k);
                        }
                    }
                    self.lemma_queues(expected);
                }
            },
            None => {
                assert(expected =~= before@.queues);
            },
        }
    }

    /// Closes the broadcaster: publishes are refused from now on. Consumers
    /// still get what is pending for them.
    pub fn close(&mut self)
        requires
            old(self).wf(),
        ensures
            final(self).wf(),
            final(self)@ == old(self)@.close(),
    {
        let ghost before = *self;
        self.closed = true;
        assert(self@.queues =~= before@.queues);
    }

    /// Publishes `text`: puts it at the end of the queue of every consumer
    /// that is attached now. A closed broadcaster refuses, and nothing
    /// changes.
    pub fn publish(&mut self, text: &str) -> (outcome: Result<(), PublishError>)
        requires
            old(self).wf(),
        ensures
            final(self).wf(),
            final(self)@ == old(self)@.publish(text@),
            outcome is Err <==> old(self)@.closed,
    {
        if self.closed {
            return Err(PublishError::Closed);
        }
        let ghost before = *self;
        let mut i: usize = 0;
        while i < self.consumers.len()
            invariant
                i <= self.consumers.len() == before.consumers.len(),
                self.next_id == before.next_id,
                self.closed == before.closed,
                forall|j: int|
                    0 <= j < self.consumers.len() ==> (#[trigger] self.consumers[j]).id
                        == before.consumers[j].id,
                forall|j: int|
                    0 <= j < i ==> texts((#[trigger] self.consumers[j]).pending@) == texts(
                        before.consumers[j].pending@,
                    ).push(text@),
                forall|j: int|
                    i <= j < self.consumers.len() ==> (#[trigger] self.consumers[j]).pending
                        == before.consumers[j].pending,
            decreases self.consumers.len() - i,
        {
            let ghost queue = self.consumers[i as int].pending@;
            let copy = text.to_owned();
            self.consumers[i].pending.push_back(copy);
            assert(texts(queue.push(copy)) =~= texts(queue).push(text@));
            i += 1;
        }
        proof {
            before.lemma_slots();
            let expected = before@.publish(text@).queues;
            assert forall|k: u64| #[trigger] expected.contains_key(k) implies self.holds(k) by {
                assert(self.consumers[before.slot(k)].id == k);
            }
            self.lemma_queues(expected);
        }
        Ok(())
    }

    /// Hands the consumer of `handle` its oldest pending text and takes the
    /// text off its queue.
    ///
    /// With nothing pending the consumer is told to wait, unless nothing
    /// will come any more: the broadcaster is closed, or the consumer is not
    /// attached.
    pub fn receive(&mut self, handle: &ConsumerHandle) -> (delivery: Delivery)
        requires
            old(self).wf(),
        ensures
            final(self).wf(),
            delivery@ == old(self)@.next(handle.number()),
            final(self)@ == old(self)@.receive(handle.number()),
    {
        let ghost before = *self;
        let ghost expected = before@.receive(handle.id).queues;
        proof {
            before.lemma_slots();
        }
        let Some(i) = self.position(handle.id) else {
            return Delivery::Closed;
        };
        let taken = self.consumers[i].pending.pop_front();
        proof {
            assert(texts(self.consumers[i as int].pending@) =~= if taken is Some {
                texts(before.consumers[i as int].pending@).drop_first()
            } else {
                texts(before.consumers[i as int].pending@)
            });
            assert forall|k: u64| #[trigger] expected.contains_key(k) implies self.holds(k) by {
                assert(self.consumers[before.slot(k)].id == k);
            }
            self.lemma_queues(expected);
        }
        match taken {
            Some(text) => Delivery::Text(text),
            None => if self.closed {
                Delivery::Closed
            } else {
                Delivery::Idle
            },
        }
    }
}

} // verus!
