//! Ordering of the terminal events a shared-session viewer receives.
//!
//! Events carry consecutive numbers but may arrive in any order. The loop
//! buffers them and releases, on each arrival, the longest run of consecutive
//! events that starts at the next number it needs.
use std::collections::HashMap;

use vstd::prelude::*;

verus! {

broadcast use vstd::std_specs::hash::group_hash_axioms;

/// Buffering this many events means the viewer is far ahead of the events
/// it still needs, which is worth a warning.
pub const TOO_MANY_BUFFERED_EVENTS: usize = 50;

/// One event released by the loop, in order.
pub struct ReleasedEvent<E> {
    pub event_no: usize,
    pub event: E,
    /// `true` when this is the event the viewer had to catch up to when it
    /// joined.
    pub caught_up: bool,
}

/// The ordering state of a shared-session viewer's event stream.
pub struct EventLoop<E> {
    /// The next event number the viewer needs.
    next_event_no: usize,
    /// The number of the latest event of the session when the viewer joined.
    catching_up_to_event_no: Option<usize>,
    /// Events received ahead of `next_event_no`.
    buffer: HashMap<usize, E>,
}

/// Every event from `next` up to `end` is in `buffer` and `end` is not:
/// releasing from `next` stops at `end`.
pub open spec fn run_end<E>(buffer: Map<usize, E>, next: int, end: int) -> bool {
    &&& next <= end
    &&& forall|k: usize| next <= k < end ==> #[trigger] buffer.contains_key(k)
    &&& !buffer.contains_key(end as usize)
}

/// The loop's state agrees with the event numbers that have `arrived`: it
/// needs next the least number that has not arrived, and it holds exactly
/// the arrived events beyond that.
pub open spec fn tracks_arrivals<E>(buffered: Map<usize, E>, next: int, arrived: Set<usize>) -> bool {
    &&& 0 <= next
    &&& forall|k: usize| k < next ==> arrived.contains(k)
    &&& !arrived.contains(next as usize)
    &&& next <= usize::MAX
    &&& forall|k: usize| #[trigger] buffered.contains_key(k) <==> (arrived.contains(k) && next <= k)
}

/// Whatever order events arrive in, each is released as soon as every
/// event before it has arrived, and none is held back longer: starting from
/// an empty loop, a call that takes in a new event number keeps the loop
/// needing the least number not yet arrived and holding exactly the arrived
/// events beyond it.
pub proof fn lemma_events_released_once_all_before_arrived<E>(
    before: Map<usize, E>,
    next: int,
    arrived: Set<usize>,
    event_no: usize,
    event: E,
    after: Map<usize, E>,
    end: int,
)
    requires
        tracks_arrivals(before, next, arrived),
        !arrived.contains(event_no),
        run_end(before.insert(event_no, event), next, end),
        after == before.insert(event_no, event).remove_keys(Set::new(|k: usize| next <= k < end)),
        end <= usize::MAX,
    ensures
        tracks_arrivals(after, end, arrived.insert(event_no)),
        tracks_arrivals(Map::<usize, E>::empty(), 0, Set::<usize>::empty()),
{
    let m = before.insert(event_no, event);
    let now = arrived.insert(event_no);
    assert forall|k: usize| k < end implies now.contains(k) by {
        if k >= next {
            assert(m.contains_key(k));
        }
    }
    assert(!now.contains(end as usize)) by {
        assert(!m.contains_key(end as usize));
        if arrived.contains(end as usize) {
            assert(before.contains_key(end as usize));
        }
    }
    assert forall|k: usize| #[trigger] after.contains_key(k) <==> (now.contains(k) && end <= k) by {
        if now.contains(k) && end <= k {
            if k != event_no {
                assert(before.contains_key(k));
            }
            assert(m.contains_key(k));
        }
        if after.contains_key(k) {
            assert(m.contains_key(k));
            assert(!(next <= k && k < end));
            if k < next {
                if k != event_no {
                    assert(before.contains_key(k));
                }
                assert(false);
            }
        }
    }
}

impl<E> EventLoop<E> {
    pub closed spec fn next_no(&self) -> nat {
        self.next_event_no as nat
    }

    pub closed spec fn catching_up_to(&self) -> Option<usize> {
        self.catching_up_to_event_no
    }

    pub closed spec fn buffered(&self) -> Map<usize, E> {
        self.buffer@
    }

    /// No buffered event has the largest number, so that the next number
    /// needed always fits.
    pub closed spec fn wf(&self) -> bool {
        forall|k: usize| self.buffer@.contains_key(k) ==> k < usize::MAX
    }

    /// A loop that needs event 0 first and has nothing buffered.
    pub fn new(catching_up_to_event_no: Option<usize>) -> (res: Self)
        ensures
            res.wf(),
            res.next_no() == 0,
            res.catching_up_to() == catching_up_to_event_no,
            res.buffered() == Map::<usize, E>::empty(),
    {
        EventLoop { next_event_no: 0, catching_up_to_event_no, buffer: HashMap::new() }
    }

    /// Whether the viewer is caught up as soon as it joins: true exactly when
    /// there was nothing to catch up to.
    pub fn starts_caught_up(&self) -> (res: bool)
        ensures
            res == (self.catching_up_to() is None),
    {
        self.catching_up_to_event_no.is_none()
    }

    /// The number of the last event released, if any.
    pub fn last_received_event_no(&self) -> (res: Option<usize>)
        ensures
            self.next_no() == 0 ==> res is None,
            self.next_no() > 0 ==> res == Some((self.next_no() - 1) as usize),
    {
        if self.next_event_no == 0 {
            return None;
        }
        Some(self.next_event_no - 1)
    }

    /// Whether so many events are buffered that something is likely amiss.
    pub fn is_too_far_ahead(&self) -> (res: bool)
        ensures
            res == (self.buffered().len() >= TOO_MANY_BUFFERED_EVENTS),
    {
        self.buffer.len() >= TOO_MANY_BUFFERED_EVENTS
    }

    /// Whether taking in event `event_no` leaves so many events buffered
    /// that something is likely amiss, before any is released.
    pub fn warns_on_arrival(&self, event_no: usize) -> (res: bool)
        ensures
            res == (self.buffered().dom().insert(event_no).len() >= TOO_MANY_BUFFERED_EVENTS),
    {
        let n = self.buffer.len();
        proof {
            assert(self.buffer@.dom().finite());
            assert(self.buffered().len() == self.buffered().dom().len());
            if self.buffer@.contains_key(event_no) {
                assert(self.buffer@.dom().insert(event_no) =~= self.buffer@.dom());
            }
        }
        if self.buffer.contains_key(&event_no) {
            n >= TOO_MANY_BUFFERED_EVENTS
        } else {
            n >= TOO_MANY_BUFFERED_EVENTS - 1
        }
    }

    /// How many events are buffered ahead of the next needed one.
    pub fn buffered_len(&self) -> (res: usize)
        ensures
            res == self.buffered().len(),
    {
        self.buffer.len()
    }

    /// Takes in event `event_no` and releases, in order, every event from the
    /// next needed number up to the first number not yet received.
    pub fn process_ordered_terminal_event(&mut self, event_no: usize, event: E) -> (released: Vec<
        ReleasedEvent<E>,
    >)
        requires
            old(self).wf(),
            event_no < usize::MAX,
        ensures
            final(self).wf(),
            final(self).catching_up_to() == old(self).catching_up_to(),
            ({
                let m = old(self).buffered().insert(event_no, event);
                let start = old(self).next_no() as int;
                let end = final(self).next_no() as int;
                &&& run_end(m, start, end)
                &&& released@.len() == end - start
                &&& forall|i: int|
                    0 <= i < released@.len() ==> {
                        &&& #[trigger] released@[i].event_no == start + i
                        &&& released@[i].event == m[(start + i) as usize]
                        &&& released@[i].caught_up == (Some(released@[i].event_no)
                            == old(self).catching_up_to())
                    }
                &&& final(self).buffered() == m.remove_keys(
                    Set::new(|k: usize| start <= k < end),
                )
            }),
    {
        let ghost m = self.buffer@.insert(event_no, event);
        let ghost start = self.next_event_no as int;
        self.buffer.insert(event_no, event);
        let mut released: Vec<ReleasedEvent<E>> = Vec::new();
        loop
            invariant
                start <= self.next_event_no,
                forall|k: usize| self.buffer@.contains_key(k) ==> k < usize::MAX,
                forall|k: usize| m.contains_key(k) ==> k < usize::MAX,
                self.catching_up_to_event_no == old(self).catching_up_to_event_no,
                forall|k: usize| start <= k < self.next_event_no ==> #[trigger] m.contains_key(k),
                self.buffer@ == m.remove_keys(Set::new(|k: usize| start <= k < self.next_event_no)),
                released@.len() == self.next_event_no - start,
                forall|i: int|
                    0 <= i < released@.len() ==> {
                        &&& #[trigger] released@[i].event_no == start + i
                        &&& released@[i].event == m[(start + i) as usize]
                        &&& released@[i].caught_up == (Some(released@[i].event_no)
                            == old(self).catching_up_to_event_no)
                    },
            ensures
                self.buffer@ == m.remove_keys(Set::new(|k: usize| start <= k < self.next_event_no)),
                !m.contains_key(self.next_event_no),
            decreases usize::MAX - self.next_event_no,
        {
            let key = self.next_event_no;
            let ghost before = self.buffer@;
            match self.buffer.remove(&key) {
                Some(next_event) => {
                    assert(before.contains_key(key) && before[key] == next_event);
                    assert(m.contains_key(key) && m[key] == next_event);
                    let caught_up = match self.catching_up_to_event_no {
                        Some(n) => n == key,
                        None => false,
                    };
                    let ghost prev = released@;
                    released.push(ReleasedEvent { event_no: key, event: next_event, caught_up });
                    assert forall|i: int| 0 <= i < released@.len() implies {
                        &&& #[trigger] released@[i].event_no == start + i
                        &&& released@[i].event == m[(start + i) as usize]
                        &&& released@[i].caught_up == (Some(released@[i].event_no)
                            == old(self).catching_up_to_event_no)
                    } by {
                        if i < prev.len() {
                            assert(released@[i] == prev[i]);
                            assert(prev[i].event_no == start + i);
                        }
                    }
                    self.next_event_no = key + 1;
                    proof {
                        assert(self.buffer@ =~= m.remove_keys(
                            Set::new(|k: usize| start <= k < self.next_event_no),
                        ));
                    }
                },
                None => {
                    break ;
                },
            }
        }
        proof {
            assert(forall|k: usize| start <= k < self.next_event_no ==> #[trigger] m.contains_key(k));
        }
        released
    }
}

} // verus!
