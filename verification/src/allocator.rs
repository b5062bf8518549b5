//! The decisions of the allocator that wraps another and attributes every
//! block to a group.

use vstd::prelude::*;
use crate::error::TracingError;
use crate::header::{header_matches, AllocationHeader, RawHeader};
use crate::layout::{AllocLayout, WrappedLayout};
use crate::stack::ThreadContext;
use crate::tracer::{TraceEvent, Tracer};

verus! {

/// What to do with a request for a block.
#[derive(Clone, Copy, Debug, PartialEq, Eq, Structural)]
pub enum AllocationPlan {
    /// Hand the request on to the underlying allocator untracked: no header is
    /// written, and no event is reported.
    Untraced,
    /// Ask the underlying allocator for the block `wrapped`, write `header` in
    /// front of the object, and report the outcome.
    Traced { wrapped: WrappedLayout, header: AllocationHeader },
    /// Fail the request: with a header in front, the block would be larger than
    /// an allocator can be asked for.
    OutOfMemory,
}

/// Which block to give back to the underlying allocator.
#[derive(Clone, Copy, Debug, PartialEq, Eq, Structural)]
pub enum Release {
    /// The block was handed out untracked: it goes back to the underlying
    /// allocator as it came from there.
    Direct,
    /// The whole block `wrapped`, which starts `wrapped.offset` bytes in front
    /// of the object.
    Wrapped { wrapped: WrappedLayout },
}

/// An allocator that hands every request on to the allocator `A` and reports
/// to the tracer `T` how many bytes it handed out and took back on behalf of
/// which group.
///
/// Nothing is tracked before tracking is enabled, and what was allocated
/// before is never accounted for.
pub struct GroupedTraceableAllocator<A, T: Tracer> {
    allocator: A,
    tracer: T,
    enabled: bool,
}

impl<A, T: Tracer> GroupedTraceableAllocator<A, T> {
    /// The underlying allocator.
    pub closed spec fn spec_allocator(&self) -> &A {
        &self.allocator
    }

    /// The tracer.
    pub closed spec fn spec_tracer(&self) -> &T {
        &self.tracer
    }

    /// Whether tracking is enabled.
    pub closed spec fn enabled(&self) -> bool {
        self.enabled
    }

    /// Whether the tracer can take events.
    pub open spec fn wf(&self) -> bool {
        self.tracer().wf()
    }

    /// An allocator that wraps `allocator` and reports to `tracer`, with
    /// tracking not yet enabled.
    pub fn new(allocator: A, tracer: T) -> (wrapping: Self)
        ensures
            wrapping.allocator() == allocator,
            wrapping.tracer() == tracer,
            !wrapping.enabled(),
    {
        GroupedTraceableAllocator { allocator, tracer, enabled: false }
    }

    /// The underlying allocator.
    #[verifier::when_used_as_spec(spec_allocator)]
    pub fn allocator(&self) -> (allocator: &A)
        ensures
            allocator == self.allocator(),
    {
        &self.allocator
    }

    /// The tracer.
    #[verifier::when_used_as_spec(spec_tracer)]
    pub fn tracer(&self) -> (tracer: &T)
        ensures
            tracer == self.tracer(),
    {
        &self.tracer
    }

    /// Whether tracking is enabled.
    pub fn is_enabled(&self) -> (enabled: bool)
        ensures
            enabled == self.enabled(),
    {
        self.enabled
    }

    /// Enables tracking, for good.
    pub fn enable(&mut self)
        ensures
            final(self).enabled(),
            final(self).tracer() == old(self).tracer(),
            final(self).allocator() == old(self).allocator(),
    {
        self.enabled = true;
    }

    /// Decides what to do with a request for a block of the given layout on
    /// the thread that `ctx` belongs to.
    ///
    /// While tracking is not enabled, or is suspended on the thread, the
    /// request is not tracked. Otherwise the block is attributed to the
    /// thread's current group, and tracking is suspended on the thread until
    /// the outcome is reported with `finish_allocation`.
    pub fn begin_allocation(&self, ctx: &mut ThreadContext, layout: AllocLayout) -> (plan:
        AllocationPlan)
        ensures
            final(ctx).stack() == old(ctx).stack(),
            !self.enabled() || old(ctx).suppressed() ==> plan == AllocationPlan::Untraced
                && final(ctx).suppressed() == old(ctx).suppressed(),
            self.enabled() && !old(ctx).suppressed() && layout.wrapped() is None ==> plan
                == AllocationPlan::OutOfMemory && !final(ctx).suppressed(),
            (self.enabled() && !old(ctx).suppressed() && layout.wrapped() is Some ==> {
                &&& plan matches AllocationPlan::Traced { wrapped, header }
                &&& wrapped == layout.wrapped().unwrap()
                &&& header.group_id@ == old(ctx).current()
                &&& header.wrapped_size == wrapped.size
                &&& final(ctx).suppressed()
            }),
    {
        if !self.enabled || ctx.is_suppressed() {
            return AllocationPlan::Untraced;
        }
        match layout.wrap() {
            Some(wrapped) => {
                let header = AllocationHeader {
                    group_id: ctx.current_group(),
                    wrapped_size: wrapped.size,
                };
                ctx.set_suppressed(true);
                AllocationPlan::Traced { wrapped, header }
            },
            None => AllocationPlan::OutOfMemory,
        }
    }

    /// Takes the outcome of a request that was planned with
    /// `begin_allocation`: whether the underlying allocator handed out the
    /// block.
    ///
    /// For a tracked request, a block that was handed out is reported to the
    /// tracer with the size and the group of its header, a failure is reported
    /// to nobody, and either way tracking is resumed on the thread. For any
    /// other plan nothing changes.
    pub fn finish_allocation(
        &mut self,
        ctx: &mut ThreadContext,
        plan: AllocationPlan,
        succeeded: bool,
    )
        requires
            old(self).wf(),
        ensures
            final(self).wf(),
            final(self).enabled() == old(self).enabled(),
            final(self).allocator() == old(self).allocator(),
            final(ctx).stack() == old(ctx).stack(),
            final(ctx).suppressed() == (old(ctx).suppressed() && !(plan is Traced)),
            (match plan {
                AllocationPlan::Traced { wrapped, header } if succeeded => old(self).tracer().takes(
                    TraceEvent::Allocation {
                        size: header.wrapped_size as nat,
                        group: header.group_id@,
                    },
                    final(self).tracer(),
                ),
                _ => final(self).tracer() == old(self).tracer(),
            }),
    {
        match plan {
            AllocationPlan::Traced { wrapped, header } => {
                if succeeded {
                    self.tracer.trace_allocation(header.wrapped_size, header.group_id);
                }
                ctx.set_suppressed(false);
            },
            _ => {},
        }
    }

    /// Decides which block to give back to the underlying allocator for an
    /// object of the given layout, and reports the release.
    ///
    /// `header` is what stands in front of the object: `None` for a block that
    /// was handed out untracked. A tracked block is reported to the tracer with
    /// the size and the group of its header, whatever group is current now and
    /// whether or not tracking is suspended on the thread; tracking is
    /// suspended for the length of the report and is afterwards as it was. A
    /// header that does not match the layout is an error, and nothing is
    /// reported.
    pub fn deallocate(
        &mut self,
        ctx: &mut ThreadContext,
        header: Option<RawHeader>,
        layout: AllocLayout,
    ) -> (release: Result<Release, TracingError>)
        requires
            old(self).wf(),
        ensures
            final(self).wf(),
            final(self).enabled() == old(self).enabled(),
            final(self).allocator() == old(self).allocator(),
            final(ctx).stack() == old(ctx).stack(),
            final(ctx).suppressed() == old(ctx).suppressed(),
            header is None ==> release == Ok::<Release, TracingError>(Release::Direct)
                && final(self).tracer() == old(self).tracer(),
            header is Some && !header_matches(header.unwrap(), layout) ==> release == Err::<
                Release,
                TracingError,
            >(TracingError::CorruptedAllocationHeader) && final(self).tracer() == old(
                self,
            ).tracer(),
            header is Some && header_matches(header.unwrap(), layout) ==> release == Ok::<
                Release,
                TracingError,
            >(Release::Wrapped { wrapped: layout.wrapped().unwrap() }) && old(self).tracer().takes(
                TraceEvent::Deallocation {
                    size: header.unwrap().wrapped_size as nat,
                    group: header.unwrap().group_id as nat,
                },
                final(self).tracer(),
            ),
    {
        let raw = match header {
            Some(raw) => raw,
            None => { return Ok(Release::Direct); },
        };
        let header = match AllocationHeader::decode(raw, layout) {
            Ok(header) => header,
            Err(error) => { return Err(error); },
        };
        let wrapped = match layout.wrap() {
            Some(wrapped) => wrapped,
            None => { return Err(TracingError::CorruptedAllocationHeader); },
        };
        let guard = ctx.suppress();
        self.tracer.trace_deallocation(header.wrapped_size, header.group_id);
        ctx.resume(guard);
        Ok(Release::Wrapped { wrapped })
    }
}

} // verus!
