//! Per-group attribution of heap memory.
//!
//! Code that wants its memory accounted for registers an allocation group,
//! and enters the group's scope while it works. An allocator that wraps the
//! process's allocator attributes every block it hands out to the group that
//! is current on the calling thread, writes that group into a header in front
//! of the block, and reports the block's size to a tracer, when it is handed
//! out and again when it is given back. The tracer of this crate keeps one
//! counter of live bytes for each group, and a reporter turns the counters
//! that are not zero into records of telemetry at a fixed interval.
//!
//! The crate holds the decisions and the bookkeeping. The memory itself, the
//! threads and the clock belong to the caller: the allocator here says which
//! block to ask the underlying allocator for and which header to write, and
//! the reporter says what to emit and how long to sleep.

use vstd::prelude::*;

pub mod allocator;
pub mod counters;
pub mod error;
pub mod group;
pub mod header;
pub mod layout;
pub mod reporter;
pub mod stack;
pub mod token;
pub mod tracer;

pub use crate::allocator::{AllocationPlan, GroupedTraceableAllocator, Release};
pub use crate::counters::LocalProducerTracer;
pub use crate::error::TracingError;
pub use crate::group::{AllocationGroupId, GroupRegistry, CAPACITY};
pub use crate::header::{AllocationHeader, RawHeader};
pub use crate::layout::{AllocLayout, WrappedLayout, HEADER_ALIGN, HEADER_SIZE};
pub use crate::reporter::{report, GroupUsage, Reporter, ReporterAction, REPORT_INTERVAL_MS};
pub use crate::stack::{GroupStack, ReentrancyGuard, ThreadContext};
pub use crate::token::{AllocationGroupToken, ScopeGuard};
pub use crate::tracer::{TraceEvent, Tracer};

verus! {

/// The wrapping allocator with the table of counters as its tracer.
pub type Allocator<A> = GroupedTraceableAllocator<A, LocalProducerTracer>;

/// Wraps `allocator` in an allocator that attributes every block to a group
/// and keeps the bytes live in each group in a table of counters.
///
/// Every counter is zero, and nothing is tracked until
/// `init_allocation_tracing` is called.
pub fn get_grouped_tracing_allocator<A>(allocator: A) -> (wrapping: Allocator<A>)
    ensures
        wrapping.wf(),
        wrapping.allocator() == allocator,
        wrapping.tracer().events() == Seq::<TraceEvent>::empty(),
        !wrapping.enabled(),
{
    GroupedTraceableAllocator::new(allocator, LocalProducerTracer::new())
}

/// Initializes allocation tracing: starts the reporter and then enables
/// tracking.
///
/// This is done once: tracking must not be enabled yet. The reporter returned
/// has not taken a step yet: it is to be run on a thread of its own, which
/// calls `start` before anything else, so that nothing the thread allocates is
/// attributed to a group.
pub fn init_allocation_tracing<A, T: Tracer>(allocator: &mut GroupedTraceableAllocator<A, T>) -> (reporter:
    Reporter)
    requires
        !old(allocator).enabled(),
    ensures
        final(allocator).enabled(),
        final(allocator).tracer() == old(allocator).tracer(),
        final(allocator).allocator() == old(allocator).allocator(),
        !reporter.started(),
        !reporter.stopped(),
{
    let reporter = Reporter::new();
    allocator.enable();
    reporter
}

/// Acquires an allocation group: registers a new group with `registry` and
/// returns the token that owns it.
///
/// Entering the token's scope attributes the allocations made within it to the
/// group. The `tags` describe the group to whoever reads the telemetry; they
/// are accepted and play no part in the registration.
///
/// The groups are numbered in the order of their registration, from 1. When
/// all identifiers are taken the call fails with `GroupCapacityExceeded` and
/// leaves the registry as it was.
pub fn acquire_allocation_group_id(registry: &mut GroupRegistry, tags: Vec<(String, String)>) -> (token:
    Result<AllocationGroupToken, TracingError>)
    ensures
        !old(registry).exhausted() ==> token is Ok && token.unwrap().id()@ == old(
            registry,
        ).issued() + 1 && final(registry).issued() == old(registry).issued() + 1,
        old(registry).exhausted() ==> token == Err::<AllocationGroupToken, TracingError>(
            TracingError::GroupCapacityExceeded,
        ) && *final(registry) == *old(registry),
{
    registry.register()
}

} // verus!
