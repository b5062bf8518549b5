//! The header that stands in front of every tracked block.

use vstd::prelude::*;
use crate::error::TracingError;
use crate::group::{AllocationGroupId, CAPACITY};
use crate::layout::AllocLayout;

verus! {

/// A header as it lies in memory: two words of eight bytes.
#[derive(Clone, Copy, Debug, PartialEq, Eq, Structural)]
pub struct RawHeader {
    /// Number of the group that the block is attributed to.
    pub group_id: u64,
    /// Size of the whole block, header and padding included.
    pub wrapped_size: u64,
}

impl RawHeader {
    /// Whether the words are all zero. No header is: a tracked block is at
    /// least as large as its header, so the second word of a header is not
    /// zero.
    pub open spec fn is_vacant(self) -> bool {
        self.group_id == 0 && self.wrapped_size == 0
    }

    /// The words for a place that holds no header: a caller that keeps room
    /// for a header in front of every block writes them in front of a block
    /// that is not tracked.
    pub fn vacant() -> (raw: RawHeader)
        ensures
            raw.is_vacant(),
    {
        RawHeader { group_id: 0, wrapped_size: 0 }
    }

    /// What the words say of the block behind them: `None` where they are
    /// vacant, the block was handed out untracked; else the header to check
    /// at the release.
    pub fn stamped(self) -> (header: Option<RawHeader>)
        ensures
            self.is_vacant() ==> header is None,
            !self.is_vacant() ==> header == Some(self),
    {
        if self.group_id == 0 && self.wrapped_size == 0 {
            None
        } else {
            Some(self)
        }
    }
}

/// What is recorded of a tracked block when it is handed out, and read again
/// when it is given back: the group that was current then, whatever group is
/// current at the release, and the size of the whole block.
#[derive(Clone, Copy, Debug, PartialEq, Eq, Structural)]
pub struct AllocationHeader {
    /// The group that the block is attributed to.
    pub group_id: AllocationGroupId,
    /// Size of the whole block, header and padding included.
    pub wrapped_size: usize,
}

/// Whether the words read in front of a block of the given layout are a header
/// that was written for such a block: they name a group, and give the size
/// that the block has with its header.
pub open spec fn header_matches(raw: RawHeader, layout: AllocLayout) -> bool {
    &&& raw.group_id < CAPACITY
    &&& layout.wrapped() is Some
    &&& layout.wrapped().unwrap().size == raw.wrapped_size
}

impl AllocationHeader {
    /// The header as it is written to memory.
    pub fn encode(&self) -> (raw: RawHeader)
        ensures
            raw.group_id == self.group_id@,
            raw.group_id < CAPACITY,
            raw.wrapped_size == self.wrapped_size,
            self.wrapped_size > 0 ==> !raw.is_vacant(),
    {
        RawHeader {
            group_id: self.group_id.as_usize() as u64,
            wrapped_size: self.wrapped_size as u64,
        }
    }

    /// The header that the words `raw`, read in front of a block of the given
    /// layout, stand for. Words that do not match the layout are refused.
    pub fn decode(raw: RawHeader, layout: AllocLayout) -> (header: Result<Self, TracingError>)
        ensures
            header_matches(raw, layout) ==> header is Ok && header.unwrap().group_id@
                == raw.group_id && header.unwrap().wrapped_size == raw.wrapped_size,
            !header_matches(raw, layout) ==> header == Err::<Self, TracingError>(
                TracingError::CorruptedAllocationHeader,
            ),
    {
        if raw.group_id >= CAPACITY as u64 {
            return Err(TracingError::CorruptedAllocationHeader);
        }
        let group_id = match AllocationGroupId::from_raw(raw.group_id as usize) {
            Some(group_id) => group_id,
            None => { return Err(TracingError::CorruptedAllocationHeader); },
        };
        match layout.wrap() {
            Some(wrapped) => {
                if wrapped.size as u64 == raw.wrapped_size {
                    Ok(AllocationHeader { group_id, wrapped_size: wrapped.size })
                } else {
                    Err(TracingError::CorruptedAllocationHeader)
                }
            },
            None => Err(TracingError::CorruptedAllocationHeader),
        }
    }
}

/// A header that was written for a block is read back as it was written.
pub proof fn lemma_header_round_trip(header: AllocationHeader, raw: RawHeader, layout: AllocLayout)
    requires
        header.group_id@ < CAPACITY,
        layout.wrapped() is Some,
        layout.wrapped().unwrap().size == header.wrapped_size,
        raw.group_id == header.group_id@,
        raw.wrapped_size == header.wrapped_size,
    ensures
        header_matches(raw, layout),
        forall|read: AllocationHeader|
            read.group_id@ == raw.group_id && read.wrapped_size == raw.wrapped_size ==> read
                == header,
{
    assert forall|read: AllocationHeader|
        read.group_id@ == raw.group_id && read.wrapped_size == raw.wrapped_size implies read
        == header by {
        AllocationGroupId::lemma_view_injective(read.group_id, header.group_id);
    }
}

} // verus!
