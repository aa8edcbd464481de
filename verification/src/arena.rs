//! The heap: a bump allocator over a fixed arena that is emptied as a whole.

use vstd::prelude::*;

verus! {

/// The bytes in the arena.
pub const ARENA_SIZE: usize = 262144;

/// The least alignment of a block.
pub const MIN_ALIGN: usize = 16;

/// How far the arena is used up.
pub struct Bump {
    /// The offset at which the unused part begins.
    pub off: usize,
}

/// The alignment that a request for `align` gets.
pub open spec fn block_align(align: int) -> int {
    if align < MIN_ALIGN {
        MIN_ALIGN as int
    } else {
        align
    }
}

/// The least multiple of `align` from `x` on.
pub open spec fn aligned_up(x: int, align: int) -> int {
    if x % align == 0 {
        x
    } else {
        x + (align - x % align)
    }
}

/// The address of the block that a request gets from an arena at `base` of
/// which `off` bytes are used, and the offset where that block ends.
pub open spec fn placement(base: int, off: int, size: int, align: int) -> Option<(int, int)> {
    let start = aligned_up(base + off, block_align(align));
    let end = start - base + size;
    if end > ARENA_SIZE {
        None
    } else {
        Some((start, end))
    }
}

impl Bump {
    /// Take a block from the arena at `base`, or nothing where the rest of the
    /// arena does not hold it.
    pub fn allocate(&mut self, base: usize, size: usize, align: usize) -> (r: Option<usize>)
        requires
            base + ARENA_SIZE <= usize::MAX,
        ensures
            match placement(base as int, old(self).off as int, size as int, align as int) {
                Some((start, end)) => r == Some(start as usize) && start <= usize::MAX
                    && final(self).off == end,
                None => r is None && *final(self) == *old(self),
            },
    {
        let align: usize = if align < MIN_ALIGN {
            MIN_ALIGN
        } else {
            align
        };
        if self.off > ARENA_SIZE {
            return None;
        }
        let free: usize = base + self.off;
        let over: usize = free % align;
        let skip: usize = if over == 0 {
            0
        } else {
            align - over
        };
        let room: usize = ARENA_SIZE - self.off;
        if skip > room || size > room - skip {
            return None;
        }
        self.off = self.off + skip + size;
        Some(free + skip)
    }
}

/// Empty the arena.
pub fn arena_reset(arena: &mut Bump)
    ensures
        final(arena).off == 0,
{
    arena.off = 0;
}

/// `aligned_up` is the least multiple that is not below its argument.
pub proof fn law_aligned_up(x: int, align: int)
    requires
        align > 0,
    ensures
        aligned_up(x, align) % align == 0,
        x <= aligned_up(x, align) < x + align,
{
    if x % align != 0 {
        let q = x / align;
        vstd::arithmetic::div_mod::lemma_fundamental_div_mod(x, align);
        assert(aligned_up(x, align) == align * (q + 1)) by {
            vstd::arithmetic::mul::lemma_mul_is_distributive_add(align, q, 1);
        }
        vstd::arithmetic::mul::lemma_mul_is_commutative(align, q + 1);
        vstd::arithmetic::div_mod::lemma_mod_multiples_basic(q + 1, align);
    }
}

/// A block lies in the unused part of the arena, it has the alignment that was
/// asked for, and it is aligned to sixteen bytes whatever was asked for.
pub proof fn law_block_in_arena(base: int, off: int, size: int, align: int)
    requires
        0 <= base,
        0 <= off,
        0 <= size,
        align < MIN_ALIGN || align % (MIN_ALIGN as int) == 0,
        placement(base, off, size, align) is Some,
    ensures
        ({
            let (start, end) = placement(base, off, size, align)->0;
            &&& base + off <= start
            &&& start + size == base + end
            &&& end <= ARENA_SIZE
            &&& start % block_align(align) == 0
            &&& start % (MIN_ALIGN as int) == 0
        }),
{
    let a = block_align(align);
    let (start, end) = placement(base, off, size, align)->0;
    law_aligned_up(base + off, a);
    vstd::arithmetic::div_mod::lemma_fundamental_div_mod(start, a);
    vstd::arithmetic::div_mod::lemma_fundamental_div_mod(a, 16);
    assert(start == 16 * ((a / 16) * (start / a))) by (nonlinear_arith)
        requires
            start == a * (start / a),
            a == 16 * (a / 16),
    ;
    vstd::arithmetic::div_mod::lemma_mod_multiples_basic((a / 16) * (start / a), 16);
}

/// Of two blocks taken without a reset between them, the second begins where
/// the first has ended or later.
pub proof fn law_blocks_disjoint(
    base: int,
    off: int,
    size1: int,
    align1: int,
    off2: int,
    size2: int,
    align2: int,
)
    requires
        0 <= base,
        0 <= off,
        placement(base, off, size1, align1) is Some,
        (placement(base, off, size1, align1)->0).1 <= off2,
        placement(base, off2, size2, align2) is Some,
    ensures
        (placement(base, off, size1, align1)->0).0 + size1 <= (placement(
            base,
            off2,
            size2,
            align2,
        )->0).0,
{
    law_aligned_up(base + off2, block_align(align2));
}

/// A block that the whole arena holds can be had right after a reset, whatever
/// was taken before: the arena begins on a block boundary.
pub proof fn law_reset_frees_everything(base: int, size: int, align: int)
    requires
        0 <= base,
        0 <= size <= ARENA_SIZE,
        base % block_align(align) == 0,
    ensures
        placement(base, 0, size, align) == Some((base, size)),
{
}

/// A request gets the first place that fits: wherever in the unused part of the
/// arena a block with that size and alignment (and one of sixteen bytes at
/// least) could lie, the request is served, and from there or before.
pub proof fn law_first_fit(base: int, off: int, size: int, align: int, place: int)
    requires
        0 <= base,
        0 <= off,
        0 <= size,
        base + off <= place,
        place + size <= base + 262144,
        align < 16 ==> place % 16 == 0,
        align >= 16 ==> place % align == 0,
    ensures
        placement(base, off, size, align) is Some,
        (placement(base, off, size, align)->0).0 <= place,
        (placement(base, off, size, align)->0).1 == (placement(base, off, size, align)->0).0 - base
            + size,
{
    let a = if align < 16 {
        16
    } else {
        align
    };
    let start = aligned_up(base + off, a);
    law_aligned_up(base + off, a);
    vstd::arithmetic::div_mod::lemma_fundamental_div_mod(start, a);
    vstd::arithmetic::div_mod::lemma_fundamental_div_mod(place, a);
    if start > place {
        assert(start - place >= a) by (nonlinear_arith)
            requires
                start == a * (start / a),
                place == a * (place / a),
                start > place,
                a >= 16,
        ;
    }
}

} // verus!
