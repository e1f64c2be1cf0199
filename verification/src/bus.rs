//! The broadcast bus: every event that is published reaches every receiver
//! that is subscribed at that moment. A receiver sees only what was published
//! after it subscribed. Each receiver holds at most `capacity` unread events;
//! when one more arrives, its oldest unread event is dropped, so that a slow
//! receiver never holds up the publisher.

use std::collections::HashMap;
use vstd::prelude::*;

verus! {

/// The queue `queue` after `event` arrives, when it may hold `capacity` events.
pub open spec fn bounded_push<T>(queue: Seq<T>, event: T, capacity: nat) -> Seq<T> {
    if capacity == 0 {
        Seq::empty()
    } else if queue.len() < capacity {
        queue.push(event)
    } else {
        queue.drop_first().push(event)
    }
}

/// A bounded queue stays bounded.
pub proof fn lemma_bounded_push_len<T>(queue: Seq<T>, event: T, capacity: nat)
    requires
        queue.len() <= capacity,
    ensures
        bounded_push(queue, event, capacity).len() <= capacity,
        capacity > 0 ==> bounded_push(queue, event, capacity).last() == event,
{
}

/// The bus. Events are kept once; each receiver remembers how far it has read.
pub struct Bus<T> {
    log: Vec<T>,
    /// How many events were published before the first one that is kept.
    head: u64,
    /// For each receiver, how many events had been published when the event
    /// it reads next was.
    cursors: HashMap<u64, u64>,
    capacity: usize,
    next_id: u64,
}

impl<T> Bus<T> {
    /// The invariant that every operation keeps.
    pub closed spec fn wf(&self) -> bool {
        &&& self.log@.len() <= self.capacity
        &&& self.head + self.log@.len() <= u64::MAX
        &&& forall|id: u64| #[trigger]
            self.cursors@.contains_key(id) ==> id < self.next_id && self.cursors@[id] <= self.head
                + self.log@.len()
    }

    /// How many unread events a receiver may hold.
    pub closed spec fn spec_capacity(&self) -> nat {
        self.capacity as nat
    }

    /// Whether `id` is a receiver.
    pub closed spec fn subscribed(&self, id: u64) -> bool {
        self.cursors@.contains_key(id)
    }

    /// The events that the receiver `id` has not read, oldest first.
    pub closed spec fn pending(&self, id: u64) -> Seq<T> {
        if self.cursors@.contains_key(id) {
            let cursor = self.cursors@[id];
            let from = if cursor > self.head {
                cursor - self.head
            } else {
                0
            };
            self.log@.subrange(from, self.log@.len() as int)
        } else {
            Seq::empty()
        }
    }

    /// How many events have been published.
    pub closed spec fn published(&self) -> nat {
        (self.head + self.log@.len()) as nat
    }

    /// How many receivers have ever subscribed.
    pub closed spec fn enrolled(&self) -> nat {
        self.next_id as nat
    }

    /// No receiver holds more than `capacity` unread events.
    pub proof fn lemma_pending_bounded(&self, id: u64)
        requires
            self.wf(),
        ensures
            self.pending(id).len() <= self.spec_capacity(),
    {
    }

    /// A bus without receivers.
    pub fn new(capacity: usize) -> (bus: Bus<T>)
        ensures
            bus.wf(),
            bus.spec_capacity() == capacity,
            bus.published() == 0,
            bus.enrolled() == 0,
            forall|id: u64| !bus.subscribed(id),
    {
        Bus { log: Vec::new(), head: 0, cursors: HashMap::new(), capacity, next_id: 0 }
    }

    pub fn capacity(&self) -> (c: usize)
        ensures
            c == self.spec_capacity(),
    {
        self.capacity
    }

    /// Adds a receiver and returns its name. It has nothing to read yet.
    /// `None`, and no change, once 2^64 - 1 receivers have subscribed.
    pub fn subscribe(&mut self) -> (r: Option<u64>)
        requires
            old(self).wf(),
        ensures
            final(self).wf(),
            final(self).spec_capacity() == old(self).spec_capacity(),
            final(self).published() == old(self).published(),
            r.is_some() <==> old(self).enrolled() < u64::MAX,
            r matches Some(id) ==> {
                &&& !old(self).subscribed(id)
                &&& final(self).subscribed(id)
                &&& final(self).pending(id) == Seq::<T>::empty()
                &&& final(self).enrolled() == old(self).enrolled() + 1
                &&& forall|other: u64|
                    other != id ==> final(self).subscribed(other) == old(self).subscribed(other)
                        && final(self).pending(other) == old(self).pending(other)
            },
            r is None ==> final(self).enrolled() == old(self).enrolled(),
            r is None ==> forall|other: u64|
                final(self).subscribed(other) == old(self).subscribed(other)
                    && final(self).pending(other) == old(self).pending(other),
    {
        broadcast use vstd::std_specs::hash::group_hash_axioms;

        if self.next_id == u64::MAX {
            return None;
        }
        let id: u64 = self.next_id;
        let at: u64 = self.head + (self.log.len() as u64);
        self.cursors.insert(id, at);
        self.next_id = id + 1;
        assert(self.pending(id) =~= Seq::<T>::empty());
        Some(id)
    }

    /// Removes the receiver `id`. Returns whether it was one.
    pub fn unsubscribe(&mut self, id: u64) -> (was: bool)
        requires
            old(self).wf(),
        ensures
            final(self).wf(),
            final(self).spec_capacity() == old(self).spec_capacity(),
            final(self).published() == old(self).published(),
            final(self).enrolled() == old(self).enrolled(),
            was == old(self).subscribed(id),
            !final(self).subscribed(id),
            forall|other: u64|
                other != id ==> final(self).subscribed(other) == old(self).subscribed(other)
                    && final(self).pending(other) == old(self).pending(other),
    {
        broadcast use vstd::std_specs::hash::group_hash_axioms;

        self.cursors.remove(&id).is_some()
    }

    /// Publishes `event` to every receiver. Returns `false`, with no change,
    /// only when 2^64 - 1 events have been published.
    pub fn publish(&mut self, event: T) -> (done: bool)
        requires
            old(self).wf(),
        ensures
            final(self).wf(),
            final(self).spec_capacity() == old(self).spec_capacity(),
            final(self).enrolled() == old(self).enrolled(),
            done == (old(self).published() < u64::MAX),
            forall|id: u64| final(self).subscribed(id) == old(self).subscribed(id),
            done ==> final(self).published() == old(self).published() + 1,
            done ==> forall|id: u64| #[trigger]
                final(self).subscribed(id) ==> final(self).pending(id) == bounded_push(
                    old(self).pending(id),
                    event,
                    old(self).spec_capacity(),
                ),
            !done ==> final(self).published() == old(self).published() && forall|id: u64|
                final(self).pending(id) == old(self).pending(id),
    {
        let held: usize = self.log.len();
        if self.head == u64::MAX - (held as u64) {
            return false;
        }
        if self.capacity == 0 {
            self.head = self.head + 1;
            assert forall|id: u64| #[trigger] self.subscribed(id) implies self.pending(id)
                == bounded_push(old(self).pending(id), event, old(self).spec_capacity()) by {
                assert(self.pending(id) =~= Seq::<T>::empty());
            }
            return true;
        }
        let ghost before = self.log@;
        if held == self.capacity {
            self.log.remove(0);
            self.head = self.head + 1;
        }
        self.log.push(event);
        assert forall|id: u64| #[trigger] self.subscribed(id) implies self.pending(id)
            == bounded_push(old(self).pending(id), event, old(self).spec_capacity()) by {
            assert(self.pending(id) =~= bounded_push(
                old(self).pending(id),
                event,
                old(self).spec_capacity(),
            ));
        }
        true
    }

    /// The oldest event that the receiver `id` has not read.
    pub fn peek(&self, id: u64) -> (r: Option<&T>)
        requires
            self.wf(),
        ensures
            r.is_some() <==> self.pending(id).len() > 0,
            r matches Some(event) ==> *event == self.pending(id).first(),
    {
        broadcast use vstd::std_specs::hash::group_hash_axioms;

        match self.cursors.get(&id) {
            None => None,
            Some(cursor) => {
                let from: u64 = if *cursor > self.head {
                    *cursor - self.head
                } else {
                    0
                };
                if from < self.log.len() as u64 {
                    Some(&self.log[from as usize])
                } else {
                    None
                }
            },
        }
    }

    /// Marks the oldest unread event of the receiver `id` as read. Returns
    /// whether there was one.
    pub fn advance(&mut self, id: u64) -> (moved: bool)
        requires
            old(self).wf(),
        ensures
            final(self).wf(),
            final(self).spec_capacity() == old(self).spec_capacity(),
            final(self).published() == old(self).published(),
            final(self).enrolled() == old(self).enrolled(),
            moved == (old(self).pending(id).len() > 0),
            moved ==> final(self).pending(id) == old(self).pending(id).drop_first(),
            !moved ==> final(self).pending(id) == old(self).pending(id),
            forall|other: u64| final(self).subscribed(other) == old(self).subscribed(other),
            forall|other: u64| other != id ==> final(self).pending(other) == old(self).pending(other),
    {
        broadcast use vstd::std_specs::hash::group_hash_axioms;

        let cursor: u64 = match self.cursors.get(&id) {
            None => {
                return false;
            },
            Some(cursor) => *cursor,
        };
        let at: u64 = if cursor > self.head {
            cursor
        } else {
            self.head
        };
        if at - self.head >= self.log.len() as u64 {
            return false;
        }
        self.cursors.insert(id, at + 1);
        assert(self.pending(id) =~= old(self).pending(id).drop_first());
        true
    }
}

} // verus!
