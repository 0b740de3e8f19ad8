//! Memory alignment arithmetic.

use vstd::prelude::*;

verus! {

/// Whether `alignment` is a power of two.
pub open spec fn is_power_of_two(alignment: usize) -> bool {
    alignment > 0 && alignment & ((alignment - 1) as usize) == 0
}

/// `size` with `alignment - 1` added and the bits below `alignment`
/// cleared. For a power of two that is `size` rounded up to the next
/// multiple of `alignment`.
pub open spec fn spec_align_size(size: usize, alignment: usize) -> usize {
    ((size + alignment - 1) as usize) & !((alignment - 1) as usize)
}

/// For a power of two, `spec_align_size` is the least number at or above
/// the size whose bits below the alignment are clear, that is the least
/// multiple of the alignment.
pub proof fn lemma_align_size(size: usize, alignment: usize)
    requires
        is_power_of_two(alignment),
        size + alignment - 1 <= usize::MAX,
    ensures
        spec_align_size(size, alignment) & ((alignment - 1) as usize) == 0,
        size <= spec_align_size(size, alignment) < size + alignment,
{
    let r = spec_align_size(size, alignment);
    let raised = (size + alignment - 1) as usize;
    assert(r & ((alignment - 1) as usize) == 0 && size <= r && ((r - size) as usize) < alignment)
        by (bit_vector)
        requires
            alignment > 0,
            alignment & ((alignment - 1) as usize) == 0,
            raised == (size + alignment - 1) as usize,
            raised >= size,
            r == raised & !((alignment - 1) as usize),
    ;
}

/// Rounds `size` up to a multiple of `alignment`, a power of two.
pub fn align_size(size: usize, alignment: usize) -> (aligned: usize)
    requires
        alignment > 0,
        size + alignment - 1 <= usize::MAX,
    ensures
        aligned == spec_align_size(size, alignment),
        is_power_of_two(alignment) ==> aligned & ((alignment - 1) as usize) == 0 && size
            <= aligned < size + alignment,
{
    proof {
        if is_power_of_two(alignment) {
            lemma_align_size(size, alignment);
        }
    }
    let raised: usize = size + (alignment - 1);
    raised & !(alignment - 1)
}

/// Whether an address is a multiple of `alignment`.
pub fn is_aligned(address: usize, alignment: usize) -> (aligned: bool)
    requires
        alignment > 0,
    ensures
        aligned == (address % alignment == 0),
{
    address % alignment == 0
}

/// The next address at or after `address` that `align_size` finds.
pub fn next_aligned_address(address: usize, alignment: usize) -> (next: usize)
    requires
        alignment > 0,
        address + alignment - 1 <= usize::MAX,
    ensures
        next == spec_align_size(address, alignment),
        is_power_of_two(alignment) ==> next & ((alignment - 1) as usize) == 0 && address
            <= next < address + alignment,
{
    align_size(address, alignment)
}

} // verus!
