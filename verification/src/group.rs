//! Allocation group identifiers and the registry that hands them out.

use vstd::prelude::*;
use crate::error::TracingError;
use crate::token::AllocationGroupToken;

verus! {

/// Number of allocation groups that can exist at once, the default group included.
pub const CAPACITY: usize = 1024;

/// Handle of one allocation group: an integer in `[0, CAPACITY)`.
///
/// Identifier `0` is the default group, to which everything allocated outside
/// of any entered scope is attributed.
#[derive(Clone, Copy, Debug, PartialEq, Eq, Structural)]
pub struct AllocationGroupId {
    raw: usize,
}

impl View for AllocationGroupId {
    type V = nat;

    closed spec fn view(&self) -> nat {
        self.raw as nat
    }
}

impl AllocationGroupId {
    #[verifier::type_invariant]
    spec fn in_range(self) -> bool {
        self.raw < CAPACITY
    }

    /// The default group.
    pub fn root() -> (id: Self)
        ensures
            id@ == 0,
    {
        AllocationGroupId { raw: 0 }
    }

    /// The group with the given number, if there can be one.
    pub fn from_raw(raw: usize) -> (id: Option<Self>)
        ensures
            id is Some <==> raw < CAPACITY,
            id is Some ==> id.unwrap()@ == raw,
    {
        if raw < CAPACITY {
            Some(AllocationGroupId { raw })
        } else {
            None
        }
    }

    /// The identifier as an index into a table of `CAPACITY` entries.
    pub fn as_usize(&self) -> (raw: usize)
        ensures
            raw == self@,
            raw < CAPACITY,
    {
        proof {
            use_type_invariant(self);
        }
        self.raw
    }

    /// Whether this is the default group.
    pub fn is_root(&self) -> (root: bool)
        ensures
            root <==> self@ == 0,
    {
        self.raw == 0
    }

    /// Two identifiers with the same number are the same identifier.
    pub proof fn lemma_view_injective(a: Self, b: Self)
        requires
            a@ == b@,
        ensures
            a == b,
    {
    }
}

/// Hands out group identifiers, each at most once, and never the default
/// group's.
///
/// Identifiers are not taken back: once `CAPACITY - 1` groups have been
/// registered, every further registration fails.
pub struct GroupRegistry {
    next: usize,
}

impl GroupRegistry {
    #[verifier::type_invariant]
    spec fn in_range(self) -> bool {
        1 <= self.next <= CAPACITY
    }

    /// How many groups have been registered so far, the default group not
    /// counted.
    pub closed spec fn issued(&self) -> nat {
        (self.next - 1) as nat
    }

    /// Whether no identifier is left to hand out.
    pub open spec fn exhausted(&self) -> bool {
        self.issued() + 1 >= CAPACITY
    }

    /// A registry that has handed out nothing yet.
    pub fn new() -> (registry: Self)
        ensures
            registry.issued() == 0,
    {
        GroupRegistry { next: 1 }
    }

    /// Number of groups that exist, the default group included.
    pub fn live_groups(&self) -> (count: usize)
        ensures
            count == self.issued() + 1,
            count <= CAPACITY,
    {
        proof {
            use_type_invariant(self);
        }
        self.next
    }

    /// Registers a new group and returns the token that owns it.
    ///
    /// The groups are numbered in the order of their registration, from 1.
    /// When all identifiers are taken the call fails and leaves the registry as
    /// it was.
    pub fn register(&mut self) -> (token: Result<AllocationGroupToken, TracingError>)
        ensures
            !old(self).exhausted() ==> token is Ok && token.unwrap().id()@ == old(self).issued()
                + 1 && final(self).issued() == old(self).issued() + 1,
            old(self).exhausted() ==> token == Err::<AllocationGroupToken, TracingError>(
                TracingError::GroupCapacityExceeded,
            ) && *final(self) == *old(self),
    {
        proof {
            use_type_invariant(&*self);
        }
        if self.next >= CAPACITY {
            return Err(TracingError::GroupCapacityExceeded);
        }
        let id = AllocationGroupId { raw: self.next };
        self.next = self.next + 1;
        Ok(AllocationGroupToken::new(id))
    }
}

} // verus!
