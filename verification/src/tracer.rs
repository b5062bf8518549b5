//! The events that the wrapping allocator reports, the sink that receives
//! them, and what a sequence of events amounts to for each group.

use vstd::prelude::*;
use vstd::seq_lib::{to_multiset_build, to_multiset_contains, to_multiset_len, to_multiset_remove};
use vstd::wrapping::i64_specs::signed_crop;
use crate::group::AllocationGroupId;
use crate::stack::{
    current_group,
    lemma_exit_restores,
    lemma_nested_exit_restores_outer,
    without_top,
};

verus! {

/// One event reported to a tracer: a block of `size` bytes, header included,
/// was handed out on behalf of `group`, or such a block was given back.
pub enum TraceEvent {
    Allocation { size: nat, group: nat },
    Deallocation { size: nat, group: nat },
}

impl TraceEvent {
    /// The group that the event is attributed to.
    pub open spec fn group(self) -> nat {
        match self {
            TraceEvent::Allocation { group, .. } => group,
            TraceEvent::Deallocation { group, .. } => group,
        }
    }

    /// The change in live bytes that the event brings to its group.
    pub open spec fn change(self) -> int {
        match self {
            TraceEvent::Allocation { size, .. } => size as int,
            TraceEvent::Deallocation { size, .. } => -(size as int),
        }
    }

    /// The change in live bytes that the event brings to `group`.
    pub open spec fn change_for(self, group: nat) -> int {
        if self.group() == group {
            self.change()
        } else {
            0
        }
    }

    /// The bytes that the event hands out on behalf of `group`.
    pub open spec fn allocated_for(self, group: nat) -> nat {
        match self {
            TraceEvent::Allocation { size, group: g } if g == group => size,
            _ => 0,
        }
    }

    /// The bytes of `group` that the event gives back.
    pub open spec fn released_for(self, group: nat) -> nat {
        match self {
            TraceEvent::Deallocation { size, group: g } if g == group => size,
            _ => 0,
        }
    }
}

/// The bytes of `group` that are live after the given events: those handed
/// out less those given back.
pub open spec fn live_bytes(events: Seq<TraceEvent>, group: nat) -> int
    decreases events.len(),
{
    if events.len() == 0 {
        0
    } else {
        live_bytes(events.drop_last(), group) + events.last().change_for(group)
    }
}

/// The bytes that the given events hand out on behalf of `group`.
pub open spec fn allocated_bytes(events: Seq<TraceEvent>, group: nat) -> nat
    decreases events.len(),
{
    if events.len() == 0 {
        0
    } else {
        allocated_bytes(events.drop_last(), group) + events.last().allocated_for(group)
    }
}

/// The bytes of `group` that the given events give back.
pub open spec fn released_bytes(events: Seq<TraceEvent>, group: nat) -> nat
    decreases events.len(),
{
    if events.len() == 0 {
        0
    } else {
        released_bytes(events.drop_last(), group) + events.last().released_for(group)
    }
}

/// What a counter that was zero holds after the given events were added to and
/// subtracted from it: the live bytes of its group, as a signed 64-bit number
/// that wraps around.
pub open spec fn counter_value(events: Seq<TraceEvent>, group: nat) -> i64 {
    signed_crop(live_bytes(events, group))
}

/// A sink for the events of the wrapping allocator.
///
/// Both methods are called on every tracked allocation and release, from any
/// thread: an implementation does a constant amount of work and should not
/// allocate. What it does allocate is not tracked, because tracking is
/// suspended on the calling thread for the length of the call.
///
/// What a tracer makes of an event is its own to say, in `takes`.
pub trait Tracer {
    /// Whether the tracer is in a state in which it can take events.
    spec fn wf(&self) -> bool;

    /// Whether `after` is what this tracer becomes when it takes note of
    /// `event`.
    spec fn takes(&self, event: TraceEvent, after: &Self) -> bool;

    /// Takes note that a block of `wrapped_size` bytes was handed out on behalf
    /// of `group_id`.
    fn trace_allocation(&mut self, wrapped_size: usize, group_id: AllocationGroupId)
        requires
            old(self).wf(),
        ensures
            final(self).wf(),
            old(self).takes(
                TraceEvent::Allocation { size: wrapped_size as nat, group: group_id@ },
                final(self),
            ),
    ;

    /// Takes note that a block of `wrapped_size` bytes, handed out on behalf of
    /// `source_group_id`, was given back.
    fn trace_deallocation(&mut self, wrapped_size: usize, source_group_id: AllocationGroupId)
        requires
            old(self).wf(),
        ensures
            final(self).wf(),
            old(self).takes(
                TraceEvent::Deallocation { size: wrapped_size as nat, group: source_group_id@ },
                final(self),
            ),
    ;
}

/// One more event changes the live bytes of its own group by its size, and
/// those of no other group.
pub proof fn lemma_live_bytes_push(events: Seq<TraceEvent>, event: TraceEvent, group: nat)
    ensures
        live_bytes(events.push(event), group) == live_bytes(events, group) + event.change_for(
            group,
        ),
{
    assert(events.push(event).drop_last() =~= events);
}

/// The live bytes of a group are what was handed out on its behalf less what
/// was given back, whatever the events of other groups in between.
pub proof fn lemma_live_bytes_is_allocated_less_released(events: Seq<TraceEvent>, group: nat)
    ensures
        live_bytes(events, group) == allocated_bytes(events, group) - released_bytes(events, group),
    decreases events.len(),
{
    if events.len() > 0 {
        lemma_live_bytes_is_allocated_less_released(events.drop_last(), group);
    }
}

/// A group that no event names has nothing handed out, nothing given back and
/// nothing live.
pub proof fn lemma_unnamed_group_is_untouched(events: Seq<TraceEvent>, group: nat)
    requires
        forall|i: int| 0 <= i < events.len() ==> (#[trigger] events[i]).group() != group,
    ensures
        live_bytes(events, group) == 0,
        allocated_bytes(events, group) == 0,
        released_bytes(events, group) == 0,
        counter_value(events, group) == 0,
    decreases events.len(),
{
    if events.len() > 0 {
        lemma_unnamed_group_is_untouched(events.drop_last(), group);
    }
}

/// Where every event is attributed to one group, as on a thread that stays
/// within one scope, that group's live bytes are the sum of the sizes handed
/// out less the sum of the sizes given back, and every other group has none.
pub proof fn lemma_single_group_totals(events: Seq<TraceEvent>, group: nat, other: nat)
    requires
        forall|i: int| 0 <= i < events.len() ==> (#[trigger] events[i]).group() == group,
        other != group,
    ensures
        live_bytes(events, group) == allocated_bytes(events, group) - released_bytes(events, group),
        live_bytes(events, other) == 0,
        counter_value(events, other) == 0,
{
    lemma_live_bytes_is_allocated_less_released(events, group);
    lemma_unnamed_group_is_untouched(events, other);
}

/// One more event changes the counter of its own group by its size, wrapping
/// around, and no other counter. Where the sum fits a signed 64-bit number the
/// counter of the event's group is the sum.
pub proof fn lemma_counter_push(events: Seq<TraceEvent>, event: TraceEvent, group: nat)
    ensures
        counter_value(events.push(event), group) == signed_crop(
            counter_value(events, group) + event.change_for(group),
        ),
        event.group() != group ==> counter_value(events.push(event), group) == counter_value(
            events,
            group,
        ),
        i64::MIN <= counter_value(events, group) + event.change_for(group) <= i64::MAX
            ==> counter_value(events.push(event), group) == counter_value(events, group)
            + event.change_for(group),
{
    lemma_live_bytes_push(events, event, group);
}

/// On a thread that enters `outer`, enters `inner` within it and leaves
/// `inner` again, the next tracked block of `size` bytes is attributed to
/// `outer`: it adds to the counter of `outer`, wrapping around, and leaves the
/// counter of every other group, that of `inner` among them, as it is.
pub proof fn lemma_block_after_inner_scope_counts_for_outer(
    stack: Seq<nat>,
    outer: nat,
    inner: nat,
    events: Seq<TraceEvent>,
    size: nat,
    other: nat,
)
    requires
        other != outer,
    ensures
        ({
            let group = current_group(without_top(stack.push(outer).push(inner)));
            let after = events.push(TraceEvent::Allocation { size, group });
            &&& group == outer
            &&& counter_value(after, outer) == signed_crop(counter_value(events, outer) + size)
            &&& counter_value(events, outer) + size <= i64::MAX ==> counter_value(after, outer)
                == counter_value(events, outer) + size
            &&& counter_value(after, other) == counter_value(events, other)
        }),
{
    lemma_nested_exit_restores_outer(stack, outer, inner);
    let event = TraceEvent::Allocation { size, group: outer };
    lemma_counter_push(events, event, outer);
    lemma_counter_push(events, event, other);
}

/// On a thread that has entered no group, enters `group` and leaves it again,
/// the next tracked block of `size` bytes is attributed to the default group:
/// it adds to the counter of group 0, wrapping around, and leaves the counter
/// of every other group as it is.
pub proof fn lemma_block_after_scope_counts_for_default(
    group: nat,
    events: Seq<TraceEvent>,
    size: nat,
    other: nat,
)
    requires
        other != 0,
    ensures
        ({
            let current = current_group(without_top(Seq::<nat>::empty().push(group)));
            let after = events.push(TraceEvent::Allocation { size, group: current });
            &&& current == 0
            &&& counter_value(after, 0) == signed_crop(counter_value(events, 0) + size)
            &&& counter_value(events, 0) + size <= i64::MAX ==> counter_value(after, 0)
                == counter_value(events, 0) + size
            &&& counter_value(after, other) == counter_value(events, other)
        }),
{
    lemma_exit_restores(Seq::<nat>::empty(), group);
    let event = TraceEvent::Allocation { size, group: 0 };
    lemma_counter_push(events, event, 0);
    lemma_counter_push(events, event, other);
}

/// Where what was handed out on behalf of a group less what was given back
/// fits a signed 64-bit number, the group's counter is that difference,
/// whatever the order of the events, and whatever the events of other groups.
pub proof fn lemma_counter_is_allocated_less_released(events: Seq<TraceEvent>, group: nat)
    requires
        i64::MIN <= allocated_bytes(events, group) - released_bytes(events, group) <= i64::MAX,
    ensures
        counter_value(events, group) == allocated_bytes(events, group) - released_bytes(
            events,
            group,
        ),
{
    lemma_live_bytes_is_allocated_less_released(events, group);
}

/// A counter holds the live bytes of its group exactly as long as they fit a
/// signed 64-bit number.
pub proof fn lemma_counter_is_exact_in_range(events: Seq<TraceEvent>, group: nat)
    requires
        i64::MIN <= live_bytes(events, group) <= i64::MAX,
    ensures
        counter_value(events, group) == live_bytes(events, group),
{
}

/// Taking one event out of a sequence takes its change out of the live bytes.
pub proof fn lemma_live_bytes_remove(events: Seq<TraceEvent>, i: int, group: nat)
    requires
        0 <= i < events.len(),
    ensures
        live_bytes(events, group) == live_bytes(events.remove(i), group) + events[i].change_for(
            group,
        ),
    decreases events.len(),
{
    if i == events.len() - 1 {
        assert(events.remove(i) =~= events.drop_last());
    } else {
        lemma_live_bytes_remove(events.drop_last(), i, group);
        assert(events.remove(i).drop_last() =~= events.drop_last().remove(i));
    }
}

/// The live bytes of every group depend on which events took place and how
/// often, not on their order: events that threads report in any interleaving
/// amount to what the same events amount to one thread after the other.
pub proof fn lemma_live_bytes_order_independent(
    a: Seq<TraceEvent>,
    b: Seq<TraceEvent>,
    group: nat,
)
    requires
        a.to_multiset() == b.to_multiset(),
    ensures
        live_bytes(a, group) == live_bytes(b, group),
        counter_value(a, group) == counter_value(b, group),
    decreases a.len(),
{
    to_multiset_len(a);
    to_multiset_len(b);
    if a.len() > 0 {
        let last = a.last();
        assert(a =~= a.drop_last().push(last));
        to_multiset_build(a.drop_last(), last);
        to_multiset_contains(a, last);
        to_multiset_contains(b, last);
        assert(a.contains(last));
        let j = choose|j: int| 0 <= j < b.len() && b[j] == last;
        to_multiset_remove(b, j);
        assert(a.drop_last().to_multiset() =~= b.remove(j).to_multiset());
        lemma_live_bytes_order_independent(a.drop_last(), b.remove(j), group);
        lemma_live_bytes_remove(b, j, group);
    }
}

/// The events of two threads, one after the other, amount to the sum of what
/// each thread's events amount to.
pub proof fn lemma_live_bytes_concat(a: Seq<TraceEvent>, b: Seq<TraceEvent>, group: nat)
    ensures
        live_bytes(a + b, group) == live_bytes(a, group) + live_bytes(b, group),
    decreases b.len(),
{
    if b.len() == 0 {
        assert(a + b =~= a);
    } else {
        assert((a + b).drop_last() =~= a + b.drop_last());
        lemma_live_bytes_concat(a, b.drop_last(), group);
    }
}

} // verus!
