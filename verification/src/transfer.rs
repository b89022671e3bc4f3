//! Value transfer: copying a fixed number of consecutive field
//! elements between two resolved offsets of the signal memory.
//!
//! Field-element values are opaque to the store lowering; the memory is
//! modelled as a vector of machine words, one per element slot.

use vstd::prelude::*;

verus! {

/// The memory after copying `size` elements from `src` to `dst` in one
/// block: inside the destination window each slot takes the value of
/// the corresponding source slot, everything else is unchanged.
pub open spec fn copied_mem(mem: Seq<u64>, dst: int, src: int, size: int) -> Seq<u64> {
    Seq::new(mem.len(), |i: int| if dst <= i < dst + size { mem[src + (i - dst)] } else { mem[i] })
}

/// Both copy windows lie inside the memory and do not overlap.
pub open spec fn copy_ranges_ok(mem: Seq<u64>, dst: int, src: int, size: int) -> bool {
    &&& 0 <= size
    &&& 0 <= dst && dst + size <= mem.len()
    &&& 0 <= src && src + size <= mem.len()
    &&& (dst + size <= src || src + size <= dst)
}

/// The memory after `size` scalar copies, each moving one element and
/// advancing both cursors by one slot.
pub open spec fn copied_stepwise(mem: Seq<u64>, dst: int, src: int, size: int) -> Seq<u64>
    decreases size,
{
    if size <= 0 {
        mem
    } else {
        copied_stepwise(copied_mem(mem, dst, src, 1), dst + 1, src + 1, size - 1)
    }
}

/// Law: the bulk-copy path and an element-by-element loop of scalar
/// copies produce identical memory contents, for every memory, every
/// pair of non-overlapping windows, and every element count.
pub proof fn lemma_stepwise_equals_bulk(mem: Seq<u64>, dst: int, src: int, size: int)
    requires
        copy_ranges_ok(mem, dst, src, size),
    ensures
        copied_stepwise(mem, dst, src, size) == copied_mem(mem, dst, src, size),
    decreases size,
{
    if size <= 0 {
        assert(copied_mem(mem, dst, src, 0) =~= mem);
    } else {
        let one = copied_mem(mem, dst, src, 1);
        assert(copy_ranges_ok(one, dst + 1, src + 1, size - 1));
        lemma_stepwise_equals_bulk(one, dst + 1, src + 1, size - 1);
        assert(copied_mem(one, dst + 1, src + 1, size - 1) =~= copied_mem(mem, dst, src, size));
    }
}

/// Copies `size` consecutive elements from `src` to `dst` in one pass,
/// the bulk-copy primitive of the transfer.
pub fn copy_block(mem: &mut Vec<u64>, dst: u64, src: u64, size: u64)
    requires
        copy_ranges_ok(old(mem)@, dst as int, src as int, size as int),
    ensures
        final(mem)@ == copied_mem(old(mem)@, dst as int, src as int, size as int),
{
    let mut k: u64 = 0;
    while k < size
        invariant
            0 <= k <= size,
            copy_ranges_ok(old(mem)@, dst as int, src as int, size as int),
            mem@.len() == old(mem)@.len(),
            forall|i: int|
                0 <= i < mem@.len() && !(dst <= i < dst + k) ==> #[trigger] mem@[i] == old(
                    mem,
                )@[i],
            forall|i: int|
                dst <= i < dst + k ==> #[trigger] mem@[i] == old(mem)@[src + (i - dst)],
        decreases size - k,
    {
        proof {
            assert(mem.len() == mem@.len());
        }
        let si: usize = (src + k) as usize;
        let di: usize = (dst + k) as usize;
        let v = mem[si];
        mem.set(di, v);
        k = k + 1;
    }
    proof {
        assert(mem@ =~= copied_mem(old(mem)@, dst as int, src as int, size as int));
    }
}

/// Copies `size` elements one scalar copy at a time, advancing both
/// cursors by one slot per step — the unrolled-loop form of the
/// transfer.  By `lemma_stepwise_equals_bulk` it leaves the memory
/// exactly as the bulk copy does.
pub fn copy_elementwise(mem: &mut Vec<u64>, dst: u64, src: u64, size: u64)
    requires
        copy_ranges_ok(old(mem)@, dst as int, src as int, size as int),
    ensures
        final(mem)@ == copied_stepwise(old(mem)@, dst as int, src as int, size as int),
        final(mem)@ == copied_mem(old(mem)@, dst as int, src as int, size as int),
{
    let mut k: u64 = 0;
    while k < size
        invariant
            0 <= k <= size,
            copy_ranges_ok(old(mem)@, dst as int, src as int, size as int),
            mem@.len() == old(mem)@.len(),
            mem@ == copied_mem(old(mem)@, dst as int, src as int, k as int),
        decreases size - k,
    {
        proof {
            assert(mem.len() == mem@.len());
        }
        let si: usize = (src + k) as usize;
        let di: usize = (dst + k) as usize;
        let v = mem[si];
        mem.set(di, v);
        k = k + 1;
        proof {
            assert(mem@ =~= copied_mem(old(mem)@, dst as int, src as int, k as int));
        }
    }
    proof {
        lemma_stepwise_equals_bulk(old(mem)@, dst as int, src as int, size as int);
    }
}

} // verus!
