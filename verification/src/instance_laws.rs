//! What holds of the reservations a frame makes, however many it makes.

use crate::instance_buffer::{
    align_up, doubled_until, grown_size, missing, next_power_of_two, reserve_all, InstanceBuffer,
    PoolState, WriterState, MAX_INSTANCE_BUFFER_SIZE,
};
use vstd::arithmetic::power2::pow2;
use vstd::prelude::*;

verus! {

pub(crate) proof fn lemma_align_up(offset: int)
    requires
        offset >= 0,
    ensures
        align_up(offset) >= offset,
        align_up(offset) < offset + 256,
        align_up(offset) % 256 == 0,
{
}

/// Placing one array keeps the writer and the pool valid.
proof fn lemma_place_keeps_valid<B>(writer: WriterState<B>, pool: PoolState<B>, size: usize)
    requires
        writer.valid(),
        pool.valid(),
    ensures
        writer.place(pool, size).writer.valid(),
        writer.place(pool, size).pool.valid(),
{
    lemma_align_up(writer.offset as int);
}

/// Every reservation starts where Metal can bind it and ends within its buffer; two in one
/// buffer never overlap, the later one lying behind the earlier; every buffer is larger than
/// the one before it and none exceeds the maximum.
pub proof fn law_reservations_never_overlap<B>(
    buffer: InstanceBuffer<B>,
    pool: PoolState<B>,
    sizes: Seq<usize>,
)
    requires
        pool.valid(),
        buffer.size <= MAX_INSTANCE_BUFFER_SIZE,
        reserve_all(WriterState::starting_with(buffer), pool, sizes).error is None,
        sizes.len() < usize::MAX,
    ensures
        ({
            let made = reserve_all(WriterState::starting_with(buffer), pool, sizes);
            &&& made.writer.valid()
            &&& made.pool.valid()
            &&& made.writer.buffers.len() <= sizes.len() + 1
            &&& made.bindings.len() == sizes.len()
            &&& forall|i: int|
                #![trigger made.bindings[i]]
                0 <= i < sizes.len() ==> {
                    let binding = made.bindings[i];
                    &&& binding.offset % 256 == 0
                    &&& binding.buffer < made.writer.buffers.len()
                    &&& binding.offset + sizes[i] <= made.writer.buffers[binding.buffer as int].size
                    &&& binding.buffer == made.writer.buffers.len() - 1 ==> binding.offset
                        + sizes[i] <= made.writer.offset
                }
            &&& forall|i: int, j: int|
                #![trigger made.bindings[i], made.bindings[j]]
                0 <= i < j < sizes.len() ==> {
                    ||| made.bindings[i].buffer < made.bindings[j].buffer
                    ||| made.bindings[i].buffer == made.bindings[j].buffer
                        && made.bindings[i].offset + sizes[i] <= made.bindings[j].offset
                }
        }),
    decreases sizes.len(),
{
    let start = WriterState::starting_with(buffer);
    if sizes.len() > 0 {
        let shorter = sizes.drop_last();
        law_reservations_never_overlap(buffer, pool, shorter);
        let earlier = reserve_all(start, pool, shorter);
        let made = reserve_all(start, pool, sizes);
        lemma_place_keeps_valid(earlier.writer, earlier.pool, sizes.last());
        lemma_align_up(earlier.writer.offset as int);
        assert(forall|i: int| 0 <= i < shorter.len() ==> shorter[i] == sizes[i]);
        assert(forall|i: int| 0 <= i < shorter.len() ==> made.bindings[i] == earlier.bindings[i]);
        assert(forall|i: int|
            0 <= i < earlier.writer.buffers.len() ==> made.writer.buffers[i]
                == earlier.writer.buffers[i]);
    }
}

/// Every reservation lies in the used part of its buffer.
pub proof fn lemma_reservations_are_used<B>(
    buffer: InstanceBuffer<B>,
    pool: PoolState<B>,
    sizes: Seq<usize>,
)
    requires
        pool.valid(),
        buffer.size <= MAX_INSTANCE_BUFFER_SIZE,
        reserve_all(WriterState::starting_with(buffer), pool, sizes).error is None,
        sizes.len() < usize::MAX,
    ensures
        ({
            let made = reserve_all(WriterState::starting_with(buffer), pool, sizes);
            forall|i: int|
                #![trigger made.bindings[i]]
                0 <= i < sizes.len() ==> made.bindings[i].offset + sizes[i]
                    <= made.writer.written.push(
                    made.writer.offset,
                )[made.bindings[i].buffer as int]
        }),
    decreases sizes.len(),
{
    let start = WriterState::starting_with(buffer);
    if sizes.len() > 0 {
        let shorter = sizes.drop_last();
        lemma_reservations_are_used(buffer, pool, shorter);
        law_reservations_never_overlap(buffer, pool, shorter);
        law_reservations_never_overlap(buffer, pool, sizes);
        let earlier = reserve_all(start, pool, shorter);
        let made = reserve_all(start, pool, sizes);
        lemma_align_up(earlier.writer.offset as int);
        let used = earlier.writer.written.push(earlier.writer.offset);
        let now = made.writer.written.push(made.writer.offset);
        assert forall|b: int| 0 <= b < used.len() implies used[b] <= now[b] by {}
        assert forall|i: int| 0 <= i < sizes.len() implies made.bindings[i].offset + sizes[i]
            <= now[made.bindings[i].buffer as int] by {
            if i < shorter.len() {
                assert(made.bindings[i] == earlier.bindings[i]);
                assert(shorter[i] == sizes[i]);
            }
        }
    }
}

/// A frame whose data exceeds one buffer continues in a strictly larger one, so the last buffer
/// of a frame is its largest.
pub proof fn law_the_last_buffer_is_the_largest<B>(writer: WriterState<B>, i: int)
    requires
        writer.valid(),
        0 <= i < writer.buffers.len(),
    ensures
        writer.buffers[i].size <= writer.current().size,
{
}

/// A pool that one frame at a time borrows from never shrinks, and the last buffer of a frame is
/// of the size the pool hands out, so that releasing it lets the next frame start where this one
/// ended.
pub proof fn law_the_last_buffer_fits_the_pool<B>(pool: PoolState<B>, sizes: Seq<usize>)
    requires
        pool.valid(),
    ensures
        ({
            let made = reserve_all(
                WriterState::starting_with(pool.next()),
                pool.without_next(),
                sizes,
            );
            &&& made.writer.buffers.len() > 0
            &&& made.writer.current().size == made.pool.buffer_size
            &&& made.pool.buffer_size >= pool.buffer_size
        }),
    decreases sizes.len(),
{
    if sizes.len() > 0 {
        law_the_last_buffer_fits_the_pool(pool, sizes.drop_last());
    }
}

/// An array that fits the largest buffer is refused only when the frame is already filling a
/// buffer of at least the size it would move on to.
pub proof fn law_growth_fails_only_at_the_maximum<B>(
    writer: WriterState<B>,
    pool: PoolState<B>,
    required: usize,
)
    requires
        writer.valid(),
        pool.valid(),
        required <= MAX_INSTANCE_BUFFER_SIZE,
        writer.current().size <= pool.buffer_size,
    ensures
        writer.growth_error(pool, required) is Some ==> writer.current().size
            == MAX_INSTANCE_BUFFER_SIZE,
        writer.growth_error(pool, required) matches Some(error) ==> error is FrameTooLarge,
        writer.growth_error(pool, required) is None ==> grown_size(pool.buffer_size, required)
            >= required,
{
    law_next_power_of_two(required as nat);
    lemma_power_within_maximum(required as nat);
}

/// The growth target is a power of two, reaches what is needed, and no smaller one would.
pub proof fn law_next_power_of_two(least: nat)
    ensures
        exists|k: nat| next_power_of_two(least) == #[trigger] pow2(k),
        next_power_of_two(least) >= least,
        forall|k: nat| #[trigger] pow2(k) >= least ==> pow2(k) >= next_power_of_two(least),
{
    vstd::arithmetic::power2::lemma2_to64();
    lemma_doubling(0, least);
}

proof fn lemma_doubling(k: nat, least: nat)
    requires
        forall|j: nat| #![trigger pow2(j)] j < k ==> pow2(j) < least,
    ensures
        exists|n: nat| doubled_until(pow2(k), least) == #[trigger] pow2(n),
        doubled_until(pow2(k), least) >= least,
        forall|n: nat| #[trigger] pow2(n) >= least ==> pow2(n) >= doubled_until(pow2(k), least),
    decreases missing(pow2(k), least),
{
    vstd::arithmetic::power2::lemma_pow2_pos(k);
    if pow2(k) >= least {
        assert forall|n: nat| #[trigger] pow2(n) >= least implies pow2(n) >= pow2(k) by {
            if n > k {
                vstd::arithmetic::power2::lemma_pow2_strictly_increases(k, n);
            }
        }
    } else {
        vstd::arithmetic::power2::lemma_pow2_unfold((k + 1) as nat);
        lemma_doubling(k + 1, least);
    }
}

/// The maximum is itself a power of two, so what fits it never asks for more.
pub(crate) proof fn lemma_power_within_maximum(least: nat)
    requires
        least <= MAX_INSTANCE_BUFFER_SIZE,
    ensures
        next_power_of_two(least) <= MAX_INSTANCE_BUFFER_SIZE,
{
    law_next_power_of_two(least);
    assert(pow2(28) == MAX_INSTANCE_BUFFER_SIZE) by {
        vstd::arithmetic::power2::lemma2_to64();
    }
}

} // verus!
