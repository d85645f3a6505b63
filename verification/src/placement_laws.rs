//! Where one array goes, which buffer a frame takes up next, and what the GPU is told of both.

use crate::instance_buffer::{
    next_power_of_two, used_ranges, InstanceBinding, InstanceError, ModifiedRange, PoolState,
    WriterState,
};
use crate::instance_laws::{law_next_power_of_two, lemma_align_up, lemma_power_within_maximum};
use vstd::arithmetic::power2::pow2;
use vstd::prelude::*;

verus! {

/// An array goes to the first offset behind the last one that is a multiple of 256, where it ends
/// within the buffer there; else to the start of a larger buffer, and what was used of this one
/// is remembered. An array that is refused changes nothing.
pub proof fn law_an_array_goes_right_behind_the_last<B>(
    writer: WriterState<B>,
    pool: PoolState<B>,
    size: usize,
    start: int,
)
    requires
        writer.valid(),
        pool.valid(),
        writer.buffers.len() < usize::MAX,
        writer.offset <= start < writer.offset + 256,
        start % 256 == 0,
    ensures
        ({
            let placement = writer.place(pool, size);
            let fits = start + size <= writer.buffers.last().size;
            let after = placement.writer;
            &&& fits ==> {
                &&& placement.placed matches Ok(binding) && binding.offset == start
                    && binding.buffer == writer.buffers.len() - 1
                &&& after.offset == start + size
                &&& after.buffers == writer.buffers
                &&& after.written == writer.written
                &&& placement.pool == pool
            }
            &&& !fits ==> match placement.placed {
                Ok(binding) => {
                    &&& binding.offset == 0
                    &&& binding.buffer == writer.buffers.len()
                    &&& after.offset == size
                    &&& after.buffers.len() == writer.buffers.len() + 1
                    &&& after.buffers.drop_last() == writer.buffers
                    &&& after.written == writer.written.push(writer.offset)
                    &&& after.buffers.last().size > writer.buffers.last().size
                    &&& after.buffers.last().size >= size
                },
                Err(_) => after == writer && placement.pool == pool,
            }
        }),
{
    lemma_align_up(writer.offset as int);
    let placement = writer.place(pool, size);
    if placement.placed is Ok {
        assert(placement.writer.buffers.drop_last() =~= writer.buffers || placement.writer.buffers
            =~= writer.buffers);
    }
}

/// The buffer a frame moves on to is twice as large as the pool's; or else the smallest power of
/// two that holds the array, where that is more; and 256 MiB where either is more than that. A
/// pool of another size is emptied, and the new buffer is one the GPU has yet to make.
pub proof fn law_buffers_grow_by_doubling<B>(
    writer: WriterState<B>,
    pool: PoolState<B>,
    size: usize,
)
    requires
        writer.valid(),
        pool.valid(),
        writer.place(pool, size).placed is Ok,
        writer.place(pool, size).writer.buffers.len() > writer.buffers.len(),
    ensures
        ({
            let placement = writer.place(pool, size);
            let taken = placement.writer.buffers.last();
            let double = 2 * pool.buffer_size;
            &&& taken.size <= 0x1000_0000
            &&& taken.size >= size
            &&& taken.size >= double || taken.size == 0x1000_0000
            &&& taken.size == double || taken.size == 0x1000_0000 || {
                &&& exists|k: nat| taken.size == #[trigger] pow2(k)
                &&& forall|k: nat| #[trigger] pow2(k) >= size ==> pow2(k) >= taken.size
            }
            &&& taken.size == 0x1000_0000 ==> double >= 0x1000_0000 || forall|k: nat|
                #[trigger] pow2(k) >= size ==> pow2(k) >= 0x1000_0000
            &&& placement.pool.buffer_size == taken.size
            &&& taken.size != pool.buffer_size ==> {
                &&& placement.pool.buffers.len() == 0
                &&& taken.buffer is None
            }
            &&& taken.size == pool.buffer_size && pool.buffers.len() == 0 ==> {
                &&& placement.pool.buffers.len() == 0
                &&& taken.buffer is None
            }
            &&& taken.size == pool.buffer_size && pool.buffers.len() > 0 ==> {
                &&& taken.buffer == Some(pool.buffers.last())
                &&& placement.pool.buffers == pool.buffers.drop_last()
            }
        }),
{
    law_next_power_of_two(size as nat);
    if size <= 0x1000_0000 {
        lemma_power_within_maximum(size as nat);
    }
    let needed = next_power_of_two(size as nat);
    let k = choose|k: nat| needed == #[trigger] pow2(k);
    assert(needed == pow2(k));
}

/// An array is refused for one of two reasons only: it needs more than 256 MiB, which is then
/// named; or the frame already fills a buffer that is no smaller than the one it would move on to,
/// twice the pool's size at least, and so 256 MiB where that buffer is of the pool's size.
pub proof fn law_an_array_is_refused_only_at_the_maximum<B>(
    writer: WriterState<B>,
    pool: PoolState<B>,
    size: usize,
)
    requires
        writer.valid(),
        pool.valid(),
    ensures
        ({
            let placed = writer.place(pool, size).placed;
            let filled = writer.buffers.last().size;
            &&& size > 0x1000_0000 <==> placed == Err::<InstanceBinding, InstanceError>(
                InstanceError::ArrayTooLarge { required: size },
            )
            &&& placed matches Err(error) ==> size > 0x1000_0000 || error is FrameTooLarge
            &&& placed matches Err(InstanceError::FrameTooLarge) ==> filled == 0x1000_0000 || filled
                >= 2 * pool.buffer_size
            &&& placed matches Err(InstanceError::FrameTooLarge) ==> (filled == pool.buffer_size
                ==> filled == 0x1000_0000)
        }),
{
    lemma_align_up(writer.offset as int);
    law_next_power_of_two(size as nat);
    if size <= 0x1000_0000 {
        lemma_power_within_maximum(size as nat);
    }
}

/// A pool hands out the buffer it took back last, of its own size, and is left with the others; an
/// empty pool leaves the buffer for the GPU to make. A pool that switches to another size keeps
/// none.
pub proof fn law_a_pool_hands_out_what_it_took_back_last<B>(
    pool: PoolState<B>,
    buffer: B,
    size: usize,
)
    ensures
        ({
            let holding = PoolState {
                buffer_size: pool.buffer_size,
                buffers: pool.buffers.push(buffer),
            };
            &&& holding.next().buffer == Some(buffer)
            &&& holding.next().size == pool.buffer_size
            &&& holding.without_next() == pool
            &&& pool.buffers.len() == 0 ==> pool.next().buffer is None && pool.without_next()
                == pool
            &&& pool.next().size == pool.buffer_size
            &&& pool.reset(size).buffer_size == size
            &&& pool.reset(size).buffers.len() == 0
        }),
{
    assert(pool.buffers.push(buffer).drop_last() =~= pool.buffers);
}

/// A buffer of the pool's own size that is given back is the next one handed out, and the pool is
/// then as it was before; a buffer of another size is not kept.
pub proof fn law_a_released_buffer_is_handed_out_again<B>(
    pool: PoolState<B>,
    buffer: B,
    size: usize,
)
    ensures
        size == pool.buffer_size ==> pool.offered(buffer, size).next().buffer == Some(buffer)
            && pool.offered(buffer, size).without_next() == pool,
        size != pool.buffer_size ==> pool.offered(buffer, size) == pool,
        pool.offered(buffer, size).buffer_size == pool.buffer_size,
{
    law_a_pool_hands_out_what_it_took_back_last(pool, buffer, size);
}

/// How much of each buffer a writer used, in the order they were taken up.
pub open spec fn used<B>(writer: WriterState<B>) -> Seq<usize> {
    writer.written.push(writer.offset)
}

/// The GPU is told once of every buffer that was written to, in order, by how much of it was, and
/// of no other.
pub proof fn law_what_was_used_is_reported_once<B>(writer: WriterState<B>, i: int, j: int)
    requires
        writer.written.len() < usize::MAX,
        0 <= i < writer.modified().len(),
        0 <= j < writer.modified().len(),
    ensures
        ({
            let range = writer.modified()[i];
            &&& range.buffer < used(writer).len()
            &&& range.length == used(writer)[range.buffer as int]
            &&& range.length > 0
            &&& i < j ==> range.buffer < writer.modified()[j].buffer
        }),
{
    lemma_ranges(used(writer));
    let ranges = used_ranges(used(writer));
    assert(ranges[i].length > 0);
    assert(ranges[j].length > 0);
}

/// Whatever was used of a buffer is reported.
pub proof fn law_every_used_buffer_is_reported<B>(writer: WriterState<B>, buffer: int)
    requires
        writer.written.len() < usize::MAX,
        0 <= buffer < used(writer).len(),
        used(writer)[buffer] > 0,
    ensures
        writer.modified().contains(
            (ModifiedRange { buffer: buffer as usize, length: used(writer)[buffer] }),
        ),
{
    lemma_reported(used(writer), buffer);
}

proof fn lemma_ranges(used: Seq<usize>)
    requires
        used.len() <= usize::MAX,
    ensures
        ({
            let ranges = used_ranges(used);
            &&& forall|i: int|
                0 <= i < ranges.len() ==> {
                    let range = #[trigger] ranges[i];
                    &&& range.buffer < used.len()
                    &&& range.length == used[range.buffer as int]
                    &&& range.length > 0
                }
            &&& forall|i: int, j: int|
                0 <= i < j < ranges.len() ==> (#[trigger] ranges[i]).buffer < (
                #[trigger] ranges[j]).buffer
        }),
    decreases used.len(),
{
    if used.len() > 0 {
        lemma_ranges(used.drop_last());
        let earlier = used_ranges(used.drop_last());
        let ranges = used_ranges(used);
        assert forall|i: int| 0 <= i < earlier.len() implies #[trigger] ranges[i]
            == earlier[i] by {}
    }
}

proof fn lemma_reported(used: Seq<usize>, buffer: int)
    requires
        used.len() <= usize::MAX,
        0 <= buffer < used.len(),
        used[buffer] > 0,
    ensures
        used_ranges(used).contains(
            (ModifiedRange { buffer: buffer as usize, length: used[buffer] }),
        ),
    decreases used.len(),
{
    let ranges = used_ranges(used);
    let range = ModifiedRange { buffer: buffer as usize, length: used[buffer] };
    if buffer == used.len() - 1 {
        assert(ranges.last() == range);
        assert(ranges[ranges.len() - 1] == range);
    } else {
        lemma_reported(used.drop_last(), buffer);
        let earlier = used_ranges(used.drop_last());
        let at = choose|at: int| 0 <= at < earlier.len() && earlier[at] == range;
        assert(ranges[at] == range);
    }
}

} // verus!
