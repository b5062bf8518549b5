//! The periodic report of the bytes that are live in each group.

use vstd::prelude::*;
use crate::stack::ThreadContext;

verus! {

/// Milliseconds between two reports.
pub const REPORT_INTERVAL_MS: u64 = 5000;

/// One record of a report: the bytes that are live in one group.
#[derive(Clone, Copy, Debug, PartialEq, Eq, Structural)]
pub struct GroupUsage {
    pub group_id: usize,
    pub current_memory_allocated_in_bytes: i64,
}

/// The report on the given counters: one record for each counter that is not
/// zero, in the order of the groups.
pub open spec fn usage_report(counters: Seq<i64>) -> Seq<GroupUsage>
    decreases counters.len(),
{
    if counters.len() == 0 {
        Seq::empty()
    } else if counters.last() == 0 {
        usage_report(counters.drop_last())
    } else {
        usage_report(counters.drop_last()).push(
            GroupUsage {
                group_id: (counters.len() - 1) as usize,
                current_memory_allocated_in_bytes: counters.last(),
            },
        )
    }
}

/// Whether the report holds a record of `group`.
pub open spec fn reports_group(report: Seq<GroupUsage>, group: int) -> bool {
    exists|i: int| 0 <= i < report.len() && (#[trigger] report[i]).group_id == group
}

/// A report holds a record of a group exactly when the group's counter is not
/// zero; every record gives the counter of its group; and the records stand in
/// the order of their groups, so that no group has two.
pub proof fn lemma_report_holds_nonzero_groups(counters: Seq<i64>)
    requires
        counters.len() <= usize::MAX,
    ensures
        usage_report(counters).len() <= counters.len(),
        forall|g: int|
            0 <= g < counters.len() ==> (reports_group(usage_report(counters), g)
                <==> #[trigger] counters[g] != 0),
        (forall|i: int|
            0 <= i < usage_report(counters).len() ==> {
                let record = #[trigger] usage_report(counters)[i];
                &&& record.group_id < counters.len()
                &&& record.current_memory_allocated_in_bytes != 0
                &&& record.current_memory_allocated_in_bytes == counters[record.group_id as int]
            }),
        forall|i: int, j: int|
            0 <= i < j < usage_report(counters).len() ==> (#[trigger] usage_report(
                counters,
            )[i]).group_id < (#[trigger] usage_report(counters)[j]).group_id,
    decreases counters.len(),
{
    if counters.len() > 0 {
        let rest = counters.drop_last();
        let last = (counters.len() - 1) as int;
        lemma_report_holds_nonzero_groups(rest);
        let report = usage_report(counters);
        let shorter = usage_report(rest);
        assert forall|g: int| 0 <= g < counters.len() implies (reports_group(report, g)
            <==> #[trigger] counters[g] != 0) by {
            if g < last {
                assert(counters[g] == rest[g]);
                if reports_group(shorter, g) {
                    let i = choose|i: int|
                        0 <= i < shorter.len() && (#[trigger] shorter[i]).group_id == g;
                    assert(report[i].group_id == g);
                }
                if reports_group(report, g) {
                    let i = choose|i: int|
                        0 <= i < report.len() && (#[trigger] report[i]).group_id == g;
                    assert(shorter[i].group_id == g);
                }
            } else {
                if counters[g] != 0 {
                    assert(report[report.len() - 1].group_id == g);
                }
                if reports_group(report, g) {
                    let i = choose|i: int|
                        0 <= i < report.len() && (#[trigger] report[i]).group_id == g;
                    if i < shorter.len() {
                        assert(shorter[i].group_id < rest.len());
                    }
                }
            }
        }
    }
}

/// The report on the given counters.
pub fn report(counters: &[i64]) -> (records: Vec<GroupUsage>)
    ensures
        records@ == usage_report(counters@),
{
    let mut records: Vec<GroupUsage> = Vec::new();
    let mut g: usize = 0;
    while g < counters.len()
        invariant
            g <= counters@.len(),
            records@ == usage_report(counters@.take(g as int)),
        decreases counters@.len() - g,
    {
        let bytes: i64 = counters[g];
        proof {
            assert(counters@.take(g + 1).drop_last() =~= counters@.take(g as int));
        }
        if bytes != 0 {
            records.push(GroupUsage { group_id: g, current_memory_allocated_in_bytes: bytes });
        }
        g = g + 1;
    }
    proof {
        assert(counters@.take(g as int) =~= counters@);
    }
    records
}

/// What the thread that runs the reporter is to do next.
#[derive(Debug, PartialEq, Eq)]
pub enum ReporterAction {
    /// Emit one record of telemetry for each of these, then call `emitted`.
    Emit(Vec<GroupUsage>),
    /// Sleep for this many milliseconds, then call `scan`.
    Sleep(u64),
    /// Stop: the reporter was shut down.
    Halt,
}

/// The reporter: it scans the counters, has the groups that hold memory
/// emitted, sleeps for a fixed time, and starts again, until it is shut down.
///
/// Tracking is suspended on the reporter's thread from the reporter's first
/// step until it halts, the sleep included: nothing that the thread allocates
/// in between is attributed to any group.
pub struct Reporter {
    started: bool,
    earlier: bool,
    stopped: bool,
}

impl Reporter {
    /// Whether the reporter has taken the first step on its thread and has not
    /// halted since.
    pub closed spec fn started(&self) -> bool {
        self.started
    }

    /// Whether tracking was suspended on the thread before the reporter took
    /// its first step there.
    pub closed spec fn earlier(&self) -> bool {
        self.earlier
    }

    /// Whether the reporter was shut down.
    pub closed spec fn stopped(&self) -> bool {
        self.stopped
    }

    /// Whether tracking is suspended on the thread once the reporter has
    /// halted, for a thread on which it is suspended or not as `suppressed`
    /// says: it is as it was before the reporter's first step.
    pub open spec fn left_behind(&self, suppressed: bool) -> bool {
        if self.started() {
            self.earlier()
        } else {
            suppressed
        }
    }

    /// A reporter that has not taken a step yet.
    pub fn new() -> (reporter: Self)
        ensures
            !reporter.started(),
            !reporter.stopped(),
    {
        Reporter { started: false, earlier: false, stopped: false }
    }

    /// Whether the reporter was shut down.
    pub fn is_stopped(&self) -> (stopped: bool)
        ensures
            stopped == self.stopped(),
    {
        self.stopped
    }

    /// The reporter's first step on its thread, to be taken before the thread
    /// does anything else: tracking is suspended on the thread, and what it was
    /// before is kept for the time when the reporter halts.
    pub fn start(&mut self, ctx: &mut ThreadContext)
        ensures
            final(self).started(),
            final(self).stopped() == old(self).stopped(),
            final(self).earlier() == old(self).left_behind(old(ctx).suppressed()),
            final(ctx).stack() == old(ctx).stack(),
            final(ctx).suppressed(),
    {
        if !self.started {
            self.earlier = ctx.is_suppressed();
            self.started = true;
        }
        ctx.set_suppressed(true);
    }

    fn halt(&mut self, ctx: &mut ThreadContext)
        ensures
            !final(self).started(),
            final(self).stopped() == old(self).stopped(),
            final(ctx).stack() == old(ctx).stack(),
            final(ctx).suppressed() == old(self).left_behind(old(ctx).suppressed()),
    {
        if self.started {
            ctx.set_suppressed(self.earlier);
            self.started = false;
        }
    }

    /// Starts a cycle on the given counters: the report on them is handed out
    /// for emission, with tracking suspended on the thread.
    ///
    /// A reporter that was shut down halts instead, and tracking on the thread
    /// is again as it was before the reporter's first step.
    pub fn scan(&mut self, ctx: &mut ThreadContext, counters: &[i64]) -> (action: ReporterAction)
        ensures
            final(self).stopped() == old(self).stopped(),
            final(ctx).stack() == old(ctx).stack(),
            old(self).stopped() ==> action == ReporterAction::Halt && !final(self).started()
                && final(ctx).suppressed() == old(self).left_behind(old(ctx).suppressed()),
            (!old(self).stopped() ==> {
                &&& action matches ReporterAction::Emit(records)
                &&& records@ == usage_report(counters@)
                &&& final(self).started()
                &&& final(self).earlier() == old(self).left_behind(old(ctx).suppressed())
                &&& final(ctx).suppressed()
            }),
    {
        if self.stopped {
            self.halt(ctx);
            return ReporterAction::Halt;
        }
        self.start(ctx);
        ReporterAction::Emit(report(counters))
    }

    /// Ends a cycle, after the report was emitted: the reporter sleeps for the
    /// fixed interval, with tracking still suspended on the thread.
    ///
    /// A reporter that was shut down halts instead, and tracking on the thread
    /// is again as it was before the reporter's first step.
    pub fn emitted(&mut self, ctx: &mut ThreadContext) -> (action: ReporterAction)
        ensures
            final(self).stopped() == old(self).stopped(),
            final(ctx).stack() == old(ctx).stack(),
            old(self).stopped() ==> action == ReporterAction::Halt && !final(self).started()
                && final(ctx).suppressed() == old(self).left_behind(old(ctx).suppressed()),
            !old(self).stopped() ==> action == ReporterAction::Sleep(REPORT_INTERVAL_MS)
                && final(self).started() && final(self).earlier() == old(self).left_behind(
                old(ctx).suppressed(),
            ) && final(ctx).suppressed(),
    {
        if self.stopped {
            self.halt(ctx);
            return ReporterAction::Halt;
        }
        self.start(ctx);
        ReporterAction::Sleep(REPORT_INTERVAL_MS)
    }

    /// Shuts the reporter down: it halts at its next step.
    pub fn shutdown(&mut self)
        ensures
            final(self).stopped(),
            final(self).started() == old(self).started(),
            final(self).earlier() == old(self).earlier(),
    {
        self.stopped = true;
    }
}

} // verus!
