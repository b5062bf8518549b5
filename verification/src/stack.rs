//! The state that each thread keeps: the stack of entered groups and the flag
//! that suspends tracking.

use vstd::prelude::*;
use crate::group::{AllocationGroupId, CAPACITY};

verus! {

/// The group to which a thread with the given stack of entered groups
/// attributes its next allocation: the one entered last, or the default group
/// when none is entered.
pub open spec fn current_group(stack: Seq<nat>) -> nat {
    if stack.len() == 0 {
        0
    } else {
        stack.last()
    }
}

/// The stack after one scope has been left. Leaving with nothing entered
/// changes nothing, so the stack cannot underflow.
pub open spec fn without_top(stack: Seq<nat>) -> Seq<nat> {
    if stack.len() == 0 {
        stack
    } else {
        stack.drop_last()
    }
}

/// The stack after the given groups have been entered one after the other.
pub open spec fn with_entered(stack: Seq<nat>, groups: Seq<nat>) -> Seq<nat> {
    stack + groups
}

/// The stack after `count` scopes have been left.
pub open spec fn without_tops(stack: Seq<nat>, count: nat) -> Seq<nat>
    decreases count,
{
    if count == 0 {
        stack
    } else {
        without_tops(without_top(stack), (count - 1) as nat)
    }
}

/// Leaving a scope restores what was there before it was entered: the stack,
/// and with it the current group.
pub proof fn lemma_exit_restores(stack: Seq<nat>, group: nat)
    ensures
        current_group(stack.push(group)) == group,
        without_top(stack.push(group)) == stack,
        current_group(without_top(stack.push(group))) == current_group(stack),
{
    assert(stack.push(group).drop_last() =~= stack);
}

/// With one scope entered within another, the inner group is current until its
/// scope is left, and the outer group is current again from then on.
pub proof fn lemma_nested_exit_restores_outer(stack: Seq<nat>, outer: nat, inner: nat)
    ensures
        current_group(stack.push(outer).push(inner)) == inner,
        current_group(without_top(stack.push(outer).push(inner))) == outer,
        without_top(without_top(stack.push(outer).push(inner))) == stack,
{
    lemma_exit_restores(stack.push(outer), inner);
    lemma_exit_restores(stack, outer);
}

/// However many scopes are entered one within the other, leaving as many
/// restores the stack from which the first was entered.
pub proof fn lemma_balanced_exits_restore(stack: Seq<nat>, groups: Seq<nat>)
    ensures
        without_tops(with_entered(stack, groups), groups.len()) == stack,
    decreases groups.len(),
{
    if groups.len() == 0 {
        assert(stack + groups =~= stack);
    } else {
        assert((stack + groups).drop_last() =~= stack + groups.drop_last());
        lemma_balanced_exits_restore(stack, groups.drop_last());
    }
}

/// The groups that a thread has entered and not yet left, the outermost first.
pub struct GroupStack {
    slots: Vec<AllocationGroupId>,
}

impl View for GroupStack {
    type V = Seq<nat>;

    closed spec fn view(&self) -> Seq<nat> {
        self.slots@.map_values(|id: AllocationGroupId| id@)
    }
}

impl GroupStack {
    /// A stack with no group entered.
    pub fn new() -> (stack: Self)
        ensures
            stack@ == Seq::<nat>::empty(),
    {
        GroupStack { slots: Vec::new() }
    }

    /// Number of groups entered and not yet left.
    pub fn depth(&self) -> (depth: usize)
        ensures
            depth == self@.len(),
    {
        self.slots.len()
    }

    /// The group that is current.
    pub fn current(&self) -> (id: AllocationGroupId)
        ensures
            id@ == current_group(self@),
            id@ < CAPACITY,
    {
        let depth: usize = self.slots.len();
        let id = if depth == 0 {
            AllocationGroupId::root()
        } else {
            self.slots[depth - 1]
        };
        let _raw: usize = id.as_usize();
        id
    }

    /// Makes `id` the current group.
    pub fn push(&mut self, id: AllocationGroupId)
        ensures
            final(self)@ == old(self)@.push(id@),
    {
        self.slots.push(id);
    }

    /// Leaves the current group and returns it, or returns `None` and changes
    /// nothing where no group is entered.
    pub fn pop(&mut self) -> (left: Option<AllocationGroupId>)
        ensures
            final(self)@ == without_top(old(self)@),
            left is Some <==> old(self)@.len() > 0,
            left is Some ==> left.unwrap()@ == old(self)@.last(),
    {
        self.slots.pop()
    }
}

/// What a suspension of tracking has to put back when it ends.
pub struct ReentrancyGuard {
    previous: bool,
}

impl ReentrancyGuard {
    /// Whether tracking was already suspended when this suspension began.
    pub closed spec fn previous(&self) -> bool {
        self.previous
    }
}

/// The tracking state of one thread.
pub struct ThreadContext {
    stack: GroupStack,
    suppressed: bool,
}

impl ThreadContext {
    /// The groups entered and not yet left, the outermost first.
    pub closed spec fn stack(&self) -> Seq<nat> {
        self.stack@
    }

    /// Whether tracking is suspended on this thread.
    pub closed spec fn suppressed(&self) -> bool {
        self.suppressed
    }

    /// The group to which the thread's next allocation is attributed.
    pub open spec fn current(&self) -> nat {
        current_group(self.stack())
    }

    /// The state of a thread that has entered no group and tracks its
    /// allocations.
    pub fn new() -> (ctx: Self)
        ensures
            ctx.stack() == Seq::<nat>::empty(),
            !ctx.suppressed(),
    {
        ThreadContext { stack: GroupStack::new(), suppressed: false }
    }

    /// The group to which the thread's next allocation is attributed.
    pub fn current_group(&self) -> (id: AllocationGroupId)
        ensures
            id@ == self.current(),
            id@ < CAPACITY,
    {
        self.stack.current()
    }

    /// Number of groups entered and not yet left.
    pub fn depth(&self) -> (depth: usize)
        ensures
            depth == self.stack().len(),
    {
        self.stack.depth()
    }

    /// Whether tracking is suspended on this thread.
    pub fn is_suppressed(&self) -> (suppressed: bool)
        ensures
            suppressed == self.suppressed(),
    {
        self.suppressed
    }

    /// Suspends tracking on this thread until the guard is handed back.
    pub fn suppress(&mut self) -> (guard: ReentrancyGuard)
        ensures
            final(self).suppressed(),
            final(self).stack() == old(self).stack(),
            guard.previous() == old(self).suppressed(),
    {
        let previous = self.suppressed;
        self.suppressed = true;
        ReentrancyGuard { previous }
    }

    /// Ends the suspension that `guard` stands for: tracking is as it was
    /// before that suspension began.
    pub fn resume(&mut self, guard: ReentrancyGuard)
        ensures
            final(self).suppressed() == guard.previous(),
            final(self).stack() == old(self).stack(),
    {
        self.suppressed = guard.previous;
    }

    pub(crate) fn set_suppressed(&mut self, suppressed: bool)
        ensures
            final(self).suppressed() == suppressed,
            final(self).stack() == old(self).stack(),
    {
        self.suppressed = suppressed;
    }

    pub(crate) fn push_group(&mut self, id: AllocationGroupId)
        ensures
            final(self).stack() == old(self).stack().push(id@),
            final(self).suppressed() == old(self).suppressed(),
    {
        self.stack.push(id);
    }

    pub(crate) fn pop_group(&mut self)
        ensures
            final(self).stack() == without_top(old(self).stack()),
            final(self).suppressed() == old(self).suppressed(),
    {
        let _ = self.stack.pop();
    }
}

} // verus!
