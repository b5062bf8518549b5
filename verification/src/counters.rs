//! The table of counters, one for each group, that holds the bytes live at the
//! moment.

use vstd::prelude::*;
use crate::group::{AllocationGroupId, CAPACITY};
use vstd::wrapping::i64_specs::signed_crop;
use crate::tracer::{counter_value, lemma_counter_push, TraceEvent, Tracer};

verus! {

/// The tracer that keeps, for each group, a counter of the bytes that are live.
///
/// A counter is a signed 64-bit number: an allocation adds its size to the
/// counter of its group, a release subtracts it, and both wrap around.
pub struct LocalProducerTracer {
    counters: [i64; CAPACITY],
    events: Ghost<Seq<TraceEvent>>,
}

impl LocalProducerTracer {
    /// The counters, by group.
    pub closed spec fn counters(&self) -> Seq<i64> {
        self.counters@
    }

    /// The events that the tracer has taken note of, the earliest first.
    pub closed spec fn events(&self) -> Seq<TraceEvent> {
        self.events@
    }

    /// A table in which every counter is zero.
    pub fn new() -> (tracer: Self)
        ensures
            tracer.wf(),
            tracer.events() == Seq::<TraceEvent>::empty(),
    {
        LocalProducerTracer { counters: [0i64;CAPACITY], events: Ghost(Seq::empty()) }
    }

    /// The bytes of `group_id` that are live.
    pub fn counter(&self, group_id: AllocationGroupId) -> (bytes: i64)
        requires
            self.wf(),
        ensures
            bytes == counter_value(self.events(), group_id@),
            bytes == self.counters()[group_id@ as int],
    {
        self.counters[group_id.as_usize()]
    }

    /// A copy of all counters, by group.
    pub fn snapshot(&self) -> (counters: [i64; CAPACITY])
        requires
            self.wf(),
        ensures
            counters@ == self.counters(),
            forall|g: int|
                0 <= g < CAPACITY ==> #[trigger] counters@[g] == counter_value(
                    self.events(),
                    g as nat,
                ),
    {
        self.counters
    }
}

impl Tracer for LocalProducerTracer {
    /// Each counter holds what the events so far amount to for its group.
    closed spec fn wf(&self) -> bool {
        forall|g: int|
            0 <= g < CAPACITY ==> self.counters@[g] == counter_value(self.events@, g as nat)
    }

    /// The tracer adds the event to those it has taken note of; with that its
    /// counters are settled.
    open spec fn takes(&self, event: TraceEvent, after: &Self) -> bool {
        after.events() == self.events().push(event)
    }

    fn trace_allocation(&mut self, wrapped_size: usize, group_id: AllocationGroupId) {
        let slot: usize = group_id.as_usize();
        let after: i64 = plus(self.counters[slot], wrapped_size as u64);
        let ghost event = TraceEvent::Allocation { size: wrapped_size as nat, group: group_id@ };
        proof {
            assert forall|g: int| 0 <= g < CAPACITY implies counter_value(
                self.events@.push(event),
                g as nat,
            ) == if g == slot {
                after
            } else {
                self.counters@[g]
            } by {
                lemma_counter_push(self.events@, event, g as nat);
            }
        }
        self.counters[slot] = after;
        self.events = Ghost(self.events@.push(event));
    }

    fn trace_deallocation(&mut self, wrapped_size: usize, source_group_id: AllocationGroupId) {
        let slot: usize = source_group_id.as_usize();
        let after: i64 = minus(self.counters[slot], wrapped_size as u64);
        let ghost event = TraceEvent::Deallocation {
            size: wrapped_size as nat,
            group: source_group_id@,
        };
        proof {
            assert forall|g: int| 0 <= g < CAPACITY implies counter_value(
                self.events@.push(event),
                g as nat,
            ) == if g == slot {
                after
            } else {
                self.counters@[g]
            } by {
                lemma_counter_push(self.events@, event, g as nat);
            }
        }
        self.counters[slot] = after;
        self.events = Ghost(self.events@.push(event));
    }
}

/// `counter + size`, wrapping around.
fn plus(counter: i64, size: u64) -> (sum: i64)
    ensures
        sum == signed_crop(counter + size),
{
    counter.wrapping_add_unsigned(size)
}

/// `counter - size`, wrapping around.
fn minus(counter: i64, size: u64) -> (difference: i64)
    ensures
        difference == signed_crop(counter - size),
{
    if size <= i64::MAX as u64 {
        counter.wrapping_sub(size as i64)
    } else {
        counter.wrapping_add_unsigned((u64::MAX - size) + 1)
    }
}

} // verus!
