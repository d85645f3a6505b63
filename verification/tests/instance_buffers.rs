//! The buffers frames are packed into.

use apple_frames::instance_buffer::{
    buffer_storage, BufferStorage, InstanceBinding, InstanceBufferPool, InstanceBufferWriter,
    InstanceError, ModifiedRange, INITIAL_INSTANCE_BUFFER_SIZE, INSTANCE_BUFFER_ALIGNMENT,
    MAX_INSTANCE_BUFFER_SIZE,
};

#[test]
fn a_pool_starts_small_and_empty() {
    let mut pool: InstanceBufferPool<u32> = InstanceBufferPool::default();
    assert_eq!(pool.buffer_size(), 2 * 1024 * 1024);
    let buffer = pool.acquire();
    assert_eq!(buffer.buffer, None);
    assert_eq!(buffer.size, INITIAL_INSTANCE_BUFFER_SIZE);
}

#[test]
fn a_released_buffer_is_handed_out_again_if_it_still_fits() {
    let mut pool: InstanceBufferPool<u32> = InstanceBufferPool::default();
    pool.release(7, INITIAL_INSTANCE_BUFFER_SIZE);
    pool.release(8, 1024);
    assert_eq!(pool.acquire().buffer, Some(7));
    assert_eq!(pool.acquire().buffer, None);
    pool.release(7, INITIAL_INSTANCE_BUFFER_SIZE);
    pool.reset(4 * 1024 * 1024);
    assert_eq!(pool.acquire().buffer, None);
}

#[test]
fn storage_follows_the_memory() {
    assert_eq!(buffer_storage(true), BufferStorage::SharedWriteCombined);
    assert_eq!(buffer_storage(false), BufferStorage::Managed);
}

#[test]
fn reservations_are_aligned_and_never_overlap() {
    let mut pool: InstanceBufferPool<u32> = InstanceBufferPool::default();
    let mut writer = InstanceBufferWriter::new(&mut pool, false);
    let sizes = [100usize, 0, 256, 1, 300];
    let mut ends = Vec::new();
    for size in sizes {
        let place = writer.allocate(&mut pool, 1, size).unwrap();
        assert_eq!(place.buffer, 0);
        assert_eq!(place.offset % INSTANCE_BUFFER_ALIGNMENT, 0);
        if let Some(end) = ends.last() {
            assert!(place.offset >= *end);
        }
        ends.push(place.offset + size);
    }
    assert_eq!(ends, vec![100, 256, 512, 513, 1068]);
    let frame = writer.finish();
    assert_eq!(frame.buffers.len(), 1);
    assert_eq!(frame.modified, vec![ModifiedRange { buffer: 0, length: 1068 }]);
}

#[test]
fn a_frame_that_outgrows_its_buffer_moves_on_to_a_larger_one() {
    let mut pool: InstanceBufferPool<u32> = InstanceBufferPool::default();
    pool.release(1, INITIAL_INSTANCE_BUFFER_SIZE);
    let mut writer = InstanceBufferWriter::new(&mut pool, false);
    let first = writer.allocate(&mut pool, 16, 4).unwrap();
    assert_eq!(first, InstanceBinding { buffer: 0, offset: 0 });
    let large = 3 * INITIAL_INSTANCE_BUFFER_SIZE;
    let second = writer.allocate(&mut pool, 1, large).unwrap();
    assert_eq!(second, InstanceBinding { buffer: 1, offset: 0 });
    assert_eq!(pool.buffer_size(), 4 * INITIAL_INSTANCE_BUFFER_SIZE);
    let frame = writer.finish();
    assert_eq!(frame.buffers[0].buffer, Some(1));
    assert_eq!(frame.buffers[1].buffer, None);
    assert_eq!(frame.buffers[1].size, 4 * INITIAL_INSTANCE_BUFFER_SIZE);
    assert_eq!(
        frame.modified,
        vec![
            ModifiedRange { buffer: 0, length: 64 },
            ModifiedRange { buffer: 1, length: large },
        ]
    );
}

#[test]
fn the_next_frame_starts_with_the_last_buffer_of_this_one() {
    let mut pool: InstanceBufferPool<u32> = InstanceBufferPool::default();
    let mut writer = InstanceBufferWriter::new(&mut pool, true);
    writer.allocate(&mut pool, 1, 2 * INITIAL_INSTANCE_BUFFER_SIZE).unwrap();
    let frame = writer.finish();
    let last = frame.buffers.last().unwrap();
    assert_eq!(last.size, pool.buffer_size());
    pool.release(42, last.size);
    let next = InstanceBufferWriter::new(&mut pool, true).finish();
    assert_eq!(next.buffers[0].buffer, Some(42));
    assert_eq!(next.buffers[0].size, 2 * INITIAL_INSTANCE_BUFFER_SIZE);
}

#[test]
fn shared_memory_needs_no_report() {
    let mut pool: InstanceBufferPool<u32> = InstanceBufferPool::default();
    let mut writer = InstanceBufferWriter::new(&mut pool, true);
    writer.allocate(&mut pool, 16, 4).unwrap();
    assert!(writer.finish().modified.is_empty());
}

#[test]
fn a_small_overflow_doubles_the_pool() {
    let mut pool: InstanceBufferPool<u32> = InstanceBufferPool::default();
    let mut writer = InstanceBufferWriter::new(&mut pool, true);
    writer.allocate(&mut pool, 1, INITIAL_INSTANCE_BUFFER_SIZE).unwrap();
    let place = writer.allocate(&mut pool, 1, 1).unwrap();
    assert_eq!(place, InstanceBinding { buffer: 1, offset: 0 });
    assert_eq!(pool.buffer_size(), 2 * INITIAL_INSTANCE_BUFFER_SIZE);
}

#[test]
fn too_large_an_array_is_refused() {
    let mut pool: InstanceBufferPool<u32> = InstanceBufferPool::default();
    let mut writer = InstanceBufferWriter::new(&mut pool, true);
    let required = MAX_INSTANCE_BUFFER_SIZE + 1;
    let error = writer.allocate(&mut pool, 1, required).unwrap_err();
    assert_eq!(error, InstanceError::ArrayTooLarge { required });
    assert_eq!(
        error.message(),
        "instance buffer needs 268435457 bytes, above the maximum of 268435456"
    );
    assert_eq!(pool.buffer_size(), INITIAL_INSTANCE_BUFFER_SIZE);
}

#[test]
fn too_large_a_frame_is_refused() {
    let mut pool: InstanceBufferPool<u32> = InstanceBufferPool::default();
    let mut writer = InstanceBufferWriter::new(&mut pool, true);
    writer.allocate(&mut pool, 1, MAX_INSTANCE_BUFFER_SIZE).unwrap();
    let error = writer.allocate(&mut pool, 1, 1).unwrap_err();
    assert_eq!(error, InstanceError::FrameTooLarge);
    assert_eq!(
        error.message(),
        "frame instance data exceeds the 268435456-byte maximum"
    );
    // The writer goes on with what it has.
    assert_eq!(
        writer.allocate(&mut pool, 1, 0).unwrap(),
        InstanceBinding { buffer: 1, offset: MAX_INSTANCE_BUFFER_SIZE }
    );
}
