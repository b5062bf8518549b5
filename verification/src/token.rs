//! Tokens that own a group, and the scopes entered through them.

use vstd::prelude::*;
use crate::group::{AllocationGroupId, CAPACITY};
use crate::stack::{without_top, ThreadContext};

verus! {

/// Owned handle of one registered group.
pub struct AllocationGroupToken {
    id: AllocationGroupId,
}

impl AllocationGroupToken {
    #[verifier::type_invariant]
    spec fn registered(self) -> bool {
        self.id@ > 0
    }

    /// The group that the token owns.
    pub closed spec fn spec_id(&self) -> AllocationGroupId {
        self.id
    }

    pub(crate) fn new(id: AllocationGroupId) -> (token: Self)
        requires
            id@ > 0,
        ensures
            token.id() == id,
    {
        AllocationGroupToken { id }
    }

    /// The group that the token owns.
    #[verifier::when_used_as_spec(spec_id)]
    pub fn id(&self) -> (id: AllocationGroupId)
        ensures
            id == self.id(),
            0 < id@ < CAPACITY,
    {
        proof {
            use_type_invariant(self);
        }
        let _raw: usize = self.id.as_usize();
        self.id
    }

    /// Enters the token's group on the thread that `ctx` belongs to: until the
    /// scope is left, or another is entered within it, the thread's allocations
    /// are attributed to this group.
    pub fn enter(&self, ctx: &mut ThreadContext) -> (scope: ScopeGuard)
        ensures
            final(ctx).stack() == old(ctx).stack().push(self.id()@),
            final(ctx).suppressed() == old(ctx).suppressed(),
            scope.group() == self.id(),
    {
        ctx.push_group(self.id);
        ScopeGuard { id: self.id }
    }
}

/// An entered scope. It is left by handing the guard back, which can be done
/// once.
pub struct ScopeGuard {
    id: AllocationGroupId,
}

impl ScopeGuard {
    /// The group that was entered.
    pub closed spec fn group(&self) -> AllocationGroupId {
        self.id
    }

    /// The group that was entered.
    pub fn group_id(&self) -> (id: AllocationGroupId)
        ensures
            id == self.group(),
    {
        self.id
    }

    /// Leaves the scope: the group that was current before it was entered is
    /// current again.
    pub fn exit(self, ctx: &mut ThreadContext)
        ensures
            final(ctx).stack() == without_top(old(ctx).stack()),
            final(ctx).suppressed() == old(ctx).suppressed(),
    {
        ctx.pop_group();
    }
}

} // verus!
