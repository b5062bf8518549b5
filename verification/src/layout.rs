//! Layouts of memory blocks, and the layout of a block with its header in
//! front.

use vstd::prelude::*;
use vstd::arithmetic::div_mod::{
    lemma_fundamental_div_mod,
    lemma_mod_decreases,
    lemma_mod_multiples_basic,
    lemma_mod_pos_bound,
    lemma_mod_self_0,
    lemma_small_mod,
};
use vstd::arithmetic::power2::is_pow2;
use vstd::layout::valid_layout;

verus! {

/// Bytes that a header takes: two words of eight bytes, the group's number and
/// the size of the whole block.
pub const HEADER_SIZE: usize = 16;

/// Alignment of a header.
pub const HEADER_ALIGN: usize = 8;

/// `n` rounded up to a multiple of `align`.
pub open spec fn round_up(n: int, align: int) -> int {
    if n % align == 0 {
        n
    } else {
        n + (align - n % align)
    }
}

/// `round_up(n, align)` is the least multiple of `align` that is not below `n`.
pub proof fn lemma_round_up_is_least_multiple(n: int, align: int, m: int)
    requires
        0 <= n,
        0 < align,
    ensures
        round_up(n, align) % align == 0,
        n <= round_up(n, align) < n + align,
        (n <= m && m % align == 0) ==> round_up(n, align) <= m,
{
    let q = n / align;
    let r = n % align;
    lemma_fundamental_div_mod(n, align);
    lemma_mod_pos_bound(n, align);
    if r != 0 {
        assert(round_up(n, align) == (q + 1) * align) by (nonlinear_arith)
            requires
                n == align * q + r,
                round_up(n, align) == n + (align - r),
        ;
        lemma_mod_multiples_basic(q + 1, align);
    }
    if n <= m && m % align == 0 && r != 0 {
        let k = m / align;
        lemma_fundamental_div_mod(m, align);
        assert(m == align * k);
        assert(k >= q + 1) by (nonlinear_arith)
            requires
                n == align * q + r,
                m == align * k,
                n <= m,
                0 < r < align,
        ;
        assert(m >= (q + 1) * align) by (nonlinear_arith)
            requires
                m == align * k,
                k >= q + 1,
                align > 0,
        ;
    }
}

/// Distance from the start of a wrapped block to the object in it, for an
/// object aligned to `align`: the header's size, rounded up to the object's
/// alignment.
pub open spec fn wrapped_offset(align: int) -> int {
    round_up(HEADER_SIZE as int, align)
}

/// Alignment of a wrapped block: the stricter of the object's and the header's.
pub open spec fn wrapped_align(align: int) -> int {
    if align > HEADER_ALIGN {
        align
    } else {
        HEADER_ALIGN as int
    }
}

/// Size of a wrapped block: the header, the padding behind it and the object,
/// rounded up to the block's alignment.
pub open spec fn wrapped_size(size: int, align: int) -> int {
    round_up(wrapped_offset(align) + size, wrapped_align(align))
}

/// Whether a block of the given layout can be wrapped: the wrapped block must
/// itself be a block that an allocator can be asked for.
pub open spec fn wrappable(size: int, align: int) -> bool {
    wrapped_size(size, align) <= isize::MAX
}

/// A wrapped block is a valid request to an allocator; an allocator that
/// honours the block's alignment puts the object at a multiple of the object's
/// own alignment, behind room for the header, and the object ends within the
/// block. The header, which ends where the object starts, lies at a multiple
/// of its own alignment.
pub proof fn lemma_wrapped_block_holds_object(size: usize, align: usize)
    requires
        valid_layout(size, align),
        wrappable(size as int, align as int),
    ensures
        valid_layout(wrapped_size(size as int, align as int) as usize, wrapped_align(align as int) as usize),
        wrapped_align(align as int) % (align as int) == 0,
        wrapped_offset(align as int) % (align as int) == 0,
        HEADER_SIZE <= wrapped_offset(align as int),
        (wrapped_offset(align as int) - HEADER_SIZE) % (HEADER_ALIGN as int) == 0,
        wrapped_offset(align as int) + size <= wrapped_size(size as int, align as int),
{
    let a = align as int;
    let wa = wrapped_align(a);
    let off = wrapped_offset(a);
    let ws = wrapped_size(size as int, a);
    lemma_pow2_positive(a);
    lemma_round_up_is_least_multiple(HEADER_SIZE as int, a, 0);
    lemma_round_up_is_least_multiple(off + size, wa, 0);
    assert(is_pow2(8)) by {
        reveal_with_fuel(is_pow2, 5);
    }
    assert(wa % a == 0) by {
        if a < 8 {
            assert(a == 1 || a == 2 || a == 4) by {
                reveal_with_fuel(is_pow2, 4);
            }
        } else {
            lemma_mod_self_0(a);
        }
    }
    assert((off - HEADER_SIZE) % 8 == 0) by {
        if a > 16 {
            assert(a % 8 == 0) by {
                reveal_with_fuel(is_pow2, 4);
            }
            lemma_small_mod(16, a as nat);
        } else {
            assert(a == 1 || a == 2 || a == 4 || a == 8 || a == 16) by {
                reveal_with_fuel(is_pow2, 6);
            }
        }
    }
    let max = isize::MAX as int;
    let q = max / wa;
    let k = ws / wa;
    lemma_fundamental_div_mod(max, wa);
    lemma_fundamental_div_mod(ws, wa);
    lemma_mod_pos_bound(max, wa);
    assert(k <= q) by (nonlinear_arith)
        requires
            ws == wa * k,
            max == wa * q + max % wa,
            0 <= max % wa < wa,
            ws <= max,
    ;
    assert(ws <= max - max % wa) by (nonlinear_arith)
        requires
            ws == wa * k,
            max == wa * q + max % wa,
            k <= q,
            wa > 0,
    ;
}

/// A power of two is positive.
pub proof fn lemma_pow2_positive(n: int)
    requires
        is_pow2(n),
    ensures
        n > 0,
{
    reveal(is_pow2);
}

/// Whether `n` is a power of two.
pub fn is_power_of_two(n: usize) -> (yes: bool)
    ensures
        yes == is_pow2(n as int),
{
    if n == 0 {
        proof {
            reveal(is_pow2);
        }
        return false;
    }
    let mut m: usize = n;
    while m % 2 == 0
        invariant
            m > 0,
            is_pow2(m as int) == is_pow2(n as int),
        decreases m,
    {
        proof {
            reveal(is_pow2);
        }
        m = m / 2;
    }
    proof {
        reveal(is_pow2);
    }
    m == 1
}

/// `n` rounded up to a multiple of `align`, or `None` where that is more than
/// a `usize` holds.
pub fn checked_round_up(n: usize, align: usize) -> (rounded: Option<usize>)
    requires
        align > 0,
    ensures
        rounded is Some <==> round_up(n as int, align as int) <= usize::MAX,
        rounded is Some ==> rounded.unwrap() == round_up(n as int, align as int),
{
    let rem: usize = n % align;
    if rem == 0 {
        Some(n)
    } else {
        n.checked_add(align - rem)
    }
}

/// Size and alignment of a block of memory, as an allocator is asked for it:
/// the alignment is a power of two, and the size, rounded up to the alignment,
/// is at most `isize::MAX`.
#[derive(Clone, Copy, Debug, PartialEq, Eq, Structural)]
pub struct AllocLayout {
    size: usize,
    align: usize,
}

/// Where a block with a header in front lies: the layout to ask the underlying
/// allocator for, and the distance from the start of that block to the object.
#[derive(Clone, Copy, Debug, PartialEq, Eq, Structural)]
pub struct WrappedLayout {
    /// Size of the whole block.
    pub size: usize,
    /// Alignment of the whole block.
    pub align: usize,
    /// Distance from the start of the block to the object.
    pub offset: usize,
}

impl AllocLayout {
    #[verifier::type_invariant]
    spec fn valid(self) -> bool {
        valid_layout(self.size, self.align)
    }

    /// Size of the block in bytes.
    pub closed spec fn spec_size(&self) -> usize {
        self.size
    }

    /// Alignment of the block in bytes.
    pub closed spec fn spec_align(&self) -> usize {
        self.align
    }

    /// The wrapped block for a block of this layout, where there is one.
    pub open spec fn wrapped(&self) -> Option<WrappedLayout> {
        if wrappable(self.size() as int, self.align() as int) {
            Some(
                WrappedLayout {
                    size: wrapped_size(self.size() as int, self.align() as int) as usize,
                    align: wrapped_align(self.align() as int) as usize,
                    offset: wrapped_offset(self.align() as int) as usize,
                },
            )
        } else {
            None
        }
    }

    /// The layout with the given size and alignment, if that is one an
    /// allocator can be asked for.
    pub fn from_size_align(size: usize, align: usize) -> (layout: Option<Self>)
        ensures
            layout is Some <==> valid_layout(size, align),
            layout is Some ==> layout.unwrap().size() == size && layout.unwrap().align() == align,
    {
        if !is_power_of_two(align) {
            return None;
        }
        proof {
            lemma_pow2_positive(align as int);
        }
        let max: usize = isize::MAX as usize;
        proof {
            lemma_mod_decreases(max as nat, align as nat);
        }
        if size > max - max % align {
            return None;
        }
        Some(AllocLayout { size, align })
    }

    /// Size of the block in bytes.
    #[verifier::when_used_as_spec(spec_size)]
    pub fn size(&self) -> (size: usize)
        ensures
            size == self.size(),
            valid_layout(size, self.align()),
    {
        proof {
            use_type_invariant(self);
        }
        self.size
    }

    /// Alignment of the block in bytes.
    #[verifier::when_used_as_spec(spec_align)]
    pub fn align(&self) -> (align: usize)
        ensures
            align == self.align(),
            valid_layout(self.size(), align),
    {
        proof {
            use_type_invariant(self);
        }
        self.align
    }

    /// The layout of this block with a header in front of it, or `None` where
    /// that block would be larger than an allocator can be asked for.
    pub fn wrap(&self) -> (wrapped: Option<WrappedLayout>)
        ensures
            wrapped == self.wrapped(),
    {
        proof {
            use_type_invariant(self);
            lemma_pow2_positive(self.align as int);
            lemma_round_up_is_least_multiple(HEADER_SIZE as int, self.align as int, 0);
            lemma_round_up_is_least_multiple(
                wrapped_offset(self.align as int) + self.size,
                wrapped_align(self.align as int),
                0,
            );
        }
        let align: usize = if self.align > HEADER_ALIGN {
            self.align
        } else {
            HEADER_ALIGN
        };
        let offset: usize = match checked_round_up(HEADER_SIZE, self.align) {
            Some(offset) => offset,
            None => { return None; },
        };
        let unpadded: usize = match offset.checked_add(self.size) {
            Some(unpadded) => unpadded,
            None => { return None; },
        };
        let size: usize = match checked_round_up(unpadded, align) {
            Some(size) => size,
            None => { return None; },
        };
        if size > isize::MAX as usize {
            return None;
        }
        Some(WrappedLayout { size, align, offset })
    }
}

} // verus!
