//! The buffers a frame's instance data is written to.
//!
//! A frame borrows a buffer from a pool that all windows share and packs its instance arrays
//! into it, each at an offset Metal can bind. When the data outgrows the buffer, the frame moves
//! on to a larger one and the pool switches to the larger size. The pool deals in whatever
//! handle `B` the GPU gives a buffer; a buffer that no handle exists for yet is left for the
//! caller to make.

use crate::text::{decimal_digits, push_decimal};
use vstd::prelude::*;
use vstd::string::*;

verus! {

/// Metal requires the offset a buffer is bound at to be 256-byte aligned.
pub const INSTANCE_BUFFER_ALIGNMENT: usize = 256;

pub const MAX_INSTANCE_BUFFER_SIZE: usize = 0x1000_0000;

/// The size every pool starts with.
pub const INITIAL_INSTANCE_BUFFER_SIZE: usize = 0x20_0000;

/// How a buffer the CPU writes and the GPU reads is stored.
#[derive(Debug, Clone, Copy, PartialEq, Eq, Structural)]
pub enum BufferStorage {
    /// Memory both share. Buffers are write only, which can benefit from the combined cache.
    SharedWriteCombined,
    /// A copy on either side, synchronized by the ranges the CPU says it modified.
    Managed,
}

/// The storage of the buffers the CPU fills for each frame.
pub fn buffer_storage(unified_memory: bool) -> (storage: BufferStorage)
    ensures
        unified_memory ==> storage is SharedWriteCombined,
        !unified_memory ==> storage is Managed,
{
    if unified_memory {
        BufferStorage::SharedWriteCombined
    } else {
        BufferStorage::Managed
    }
}

/// A buffer of `size` bytes, `None` until the GPU has made it.
#[derive(Debug)]
pub struct InstanceBuffer<B> {
    pub buffer: Option<B>,
    pub size: usize,
}

/// What an [`InstanceBufferPool`] holds.
pub struct PoolState<B> {
    pub buffer_size: usize,
    pub buffers: Seq<B>,
}

impl<B> PoolState<B> {
    /// No pool this library has grown exceeds the maximum.
    pub open spec fn valid(self) -> bool {
        self.buffer_size <= MAX_INSTANCE_BUFFER_SIZE
    }

    pub open spec fn reset(self, buffer_size: usize) -> Self {
        PoolState { buffer_size, buffers: Seq::empty() }
    }

    /// The buffer the pool hands out next.
    pub open spec fn next(self) -> InstanceBuffer<B> {
        InstanceBuffer {
            buffer: if self.buffers.len() > 0 {
                Some(self.buffers.last())
            } else {
                None
            },
            size: self.buffer_size,
        }
    }

    /// The pool once it was offered a buffer of `size` bytes.
    pub open spec fn offered(self, buffer: B, size: usize) -> Self {
        PoolState {
            buffers: if size == self.buffer_size {
                self.buffers.push(buffer)
            } else {
                self.buffers
            },
            ..self
        }
    }

    /// The pool once it has handed out [`PoolState::next`].
    pub open spec fn without_next(self) -> Self {
        PoolState {
            buffers: if self.buffers.len() > 0 {
                self.buffers.drop_last()
            } else {
                self.buffers
            },
            ..self
        }
    }
}

/// Buffers of one size that no frame is using.
#[derive(Debug)]
pub struct InstanceBufferPool<B> {
    buffer_size: usize,
    buffers: Vec<B>,
}

impl<B> View for InstanceBufferPool<B> {
    type V = PoolState<B>;

    closed spec fn view(&self) -> PoolState<B> {
        PoolState { buffer_size: self.buffer_size, buffers: self.buffers@ }
    }
}

impl<B> Default for InstanceBufferPool<B> {
    fn default() -> (pool: Self)
        ensures
            pool@.buffer_size == INITIAL_INSTANCE_BUFFER_SIZE,
            pool@.buffers.len() == 0,
            pool@.valid(),
    {
        InstanceBufferPool { buffer_size: INITIAL_INSTANCE_BUFFER_SIZE, buffers: Vec::new() }
    }
}

impl<B> InstanceBufferPool<B> {
    /// The size of the buffers the pool hands out.
    pub fn buffer_size(&self) -> (size: usize)
        ensures
            size == self@.buffer_size,
    {
        self.buffer_size
    }

    /// Switches to buffers of another size.
    pub fn reset(&mut self, buffer_size: usize)
        ensures
            final(self)@ == old(self)@.reset(buffer_size),
    {
        self.buffer_size = buffer_size;
        self.buffers.clear();
    }

    /// Hands out a buffer, one that was released before where there is one.
    pub fn acquire(&mut self) -> (acquired: InstanceBuffer<B>)
        ensures
            acquired == old(self)@.next(),
            final(self)@ == old(self)@.without_next(),
    {
        let buffer = self.buffers.pop();
        InstanceBuffer { buffer, size: self.buffer_size }
    }

    /// Takes a buffer back, unless the pool has switched to another size meanwhile.
    pub fn release(&mut self, buffer: B, size: usize)
        ensures
            final(self)@ == old(self)@.offered(buffer, size),
            final(self)@.buffer_size == old(self)@.buffer_size,
            final(self)@.buffers == if size == old(self)@.buffer_size {
                old(self)@.buffers.push(buffer)
            } else {
                old(self)@.buffers
            },
    {
        if size == self.buffer_size {
            self.buffers.push(buffer);
        }
    }
}

/// Where one instance array lies.
#[derive(Debug, Clone, Copy, PartialEq, Eq, Structural)]
pub struct InstanceBinding {
    /// Which of the frame's buffers, counted in the order the frame took them up.
    pub buffer: usize,
    pub offset: usize,
}

/// Why a frame's instance data could not be placed.
#[derive(Debug, Clone, Copy, PartialEq, Eq, Structural)]
pub enum InstanceError {
    /// One array needs more than the largest buffer holds.
    ArrayTooLarge { required: usize },
    /// The frame already fills a buffer of the largest size.
    FrameTooLarge,
}

impl InstanceError {
    /// The error in words.
    pub open spec fn words(self) -> Seq<char> {
        match self {
            InstanceError::ArrayTooLarge { required } => "instance buffer needs "@ + decimal_digits(
                required as nat,
            ) + " bytes, above the maximum of "@ + decimal_digits(MAX_INSTANCE_BUFFER_SIZE as nat),
            InstanceError::FrameTooLarge => "frame instance data exceeds the "@ + decimal_digits(
                MAX_INSTANCE_BUFFER_SIZE as nat,
            ) + "-byte maximum"@,
        }
    }

    /// The error in words.
    pub fn message(&self) -> (text: String)
        ensures
            text@ == self.words(),
    {
        match self {
            InstanceError::ArrayTooLarge { required } => {
                let mut text = "instance buffer needs ".to_string();
                push_decimal(&mut text, *required);
                text.append(" bytes, above the maximum of ");
                push_decimal(&mut text, MAX_INSTANCE_BUFFER_SIZE);
                text
            },
            InstanceError::FrameTooLarge => {
                let mut text = "frame instance data exceeds the ".to_string();
                push_decimal(&mut text, MAX_INSTANCE_BUFFER_SIZE);
                text.append("-byte maximum");
                text
            },
        }
    }
}

/// The first offset from `offset` on that Metal can bind.
pub open spec fn align_up(offset: int) -> int {
    (offset + INSTANCE_BUFFER_ALIGNMENT - 1) / (INSTANCE_BUFFER_ALIGNMENT as int)
        * INSTANCE_BUFFER_ALIGNMENT
}

/// How far `power` is short of `least`.
pub open spec fn missing(power: nat, least: nat) -> int {
    if power < least {
        least - power
    } else {
        0
    }
}

/// `power` doubled until it reaches `least`.
pub open spec fn doubled_until(power: nat, least: nat) -> nat
    decreases missing(power, least),
{
    if power == 0 || power >= least {
        power
    } else {
        doubled_until(2 * power, least)
    }
}

/// The smallest power of two that is at least `least`.
pub open spec fn next_power_of_two(least: nat) -> nat {
    doubled_until(1, least)
}

fn smallest_power_of_two(least: usize) -> (power: usize)
    requires
        least <= isize::MAX,
    ensures
        power == next_power_of_two(least as nat),
{
    let mut power: usize = 1;
    while power < least
        invariant
            power > 0,
            least <= isize::MAX,
            doubled_until(power as nat, least as nat) == next_power_of_two(least as nat),
        decreases missing(power as nat, least as nat),
    {
        power = power * 2;
    }
    power
}

/// The size a pool of `pool_size` buffers switches to so that `required` bytes fit: at least
/// twice as much, a power of two that holds them if more is needed, and never above the maximum.
pub open spec fn grown_size(pool_size: usize, required: usize) -> int {
    let doubled = 2 * pool_size as int;
    let needed = next_power_of_two(required as nat) as int;
    let wanted = if doubled >= needed {
        doubled
    } else {
        needed
    };
    if wanted <= MAX_INSTANCE_BUFFER_SIZE {
        wanted
    } else {
        MAX_INSTANCE_BUFFER_SIZE as int
    }
}

/// What an [`InstanceBufferWriter`] has placed so far.
pub struct WriterState<B> {
    /// The buffers in the order the frame took them up; the last one is being filled.
    pub buffers: Seq<InstanceBuffer<B>>,
    /// How much of every buffer but the last was used.
    pub written: Seq<usize>,
    /// How much of the last buffer is used.
    pub offset: usize,
}

/// A writer and its pool, and the error that stopped them if one did.
pub struct Placement<B> {
    pub writer: WriterState<B>,
    pub pool: PoolState<B>,
    pub placed: Result<InstanceBinding, InstanceError>,
}

impl<B> WriterState<B> {
    /// A writer that has just taken up its first buffer.
    pub open spec fn starting_with(buffer: InstanceBuffer<B>) -> Self {
        WriterState { buffers: seq![buffer], written: seq![], offset: 0 }
    }

    pub open spec fn current(self) -> InstanceBuffer<B> {
        self.buffers.last()
    }

    /// Every buffer is larger than the one before, none exceeds the maximum, and none is used
    /// beyond its end.
    pub open spec fn valid(self) -> bool {
        &&& self.buffers.len() == self.written.len() + 1
        &&& self.offset <= self.current().size
        &&& forall|i: int|
            0 <= i < self.buffers.len() ==> (#[trigger] self.buffers[i]).size
                <= MAX_INSTANCE_BUFFER_SIZE
        &&& forall|i: int|
            0 <= i < self.written.len() ==> #[trigger] self.written[i] <= self.buffers[i].size
        &&& forall|i: int, j: int|
            0 <= i < j < self.buffers.len() ==> (#[trigger] self.buffers[i]).size < (
            #[trigger] self.buffers[j]).size
    }

    /// Why the frame cannot move on to a buffer that holds `required` bytes, `None` if it can.
    pub open spec fn growth_error(self, pool: PoolState<B>, required: usize) -> Option<
        InstanceError,
    > {
        let size = grown_size(pool.buffer_size, required);
        if size < required {
            Some(InstanceError::ArrayTooLarge { required })
        } else if size <= self.current().size {
            Some(InstanceError::FrameTooLarge)
        } else {
            None
        }
    }

    /// The pool the next, larger buffer comes from.
    pub open spec fn grown_pool(self, pool: PoolState<B>, required: usize) -> PoolState<B> {
        let size = grown_size(pool.buffer_size, required);
        if size == pool.buffer_size {
            pool
        } else {
            pool.reset(size as usize)
        }
    }

    /// The writer once it has moved on to `buffer`.
    pub open spec fn moved_on(self, buffer: InstanceBuffer<B>) -> Self {
        WriterState {
            buffers: self.buffers.push(buffer),
            written: self.written.push(self.offset),
            offset: 0,
        }
    }

    /// Places `size` bytes: behind what the current buffer holds where they fit, else at the
    /// start of a larger one.
    pub open spec fn place(self, pool: PoolState<B>, size: usize) -> Placement<B> {
        let start = align_up(self.offset as int);
        if start + size <= self.current().size {
            Placement {
                writer: WriterState { offset: (start + size) as usize, ..self },
                pool,
                placed: Ok(
                    InstanceBinding {
                        buffer: (self.buffers.len() - 1) as usize,
                        offset: start as usize,
                    },
                ),
            }
        } else {
            match self.growth_error(pool, size) {
                Some(error) => Placement { writer: self, pool, placed: Err(error) },
                None => {
                    let grown = self.grown_pool(pool, size);
                    Placement {
                        writer: WriterState { offset: size, ..self.moved_on(grown.next()) },
                        pool: grown.without_next(),
                        placed: Ok(
                            InstanceBinding { buffer: self.buffers.len() as usize, offset: 0 },
                        ),
                    }
                },
            }
        }
    }

    /// The start of every buffer that was written to, with how much of it was.
    pub open spec fn modified(self) -> Seq<ModifiedRange> {
        used_ranges(self.written.push(self.offset))
    }
}

/// A writer, its pool and every reservation made so far, up to the error that stopped them.
pub struct Reservations<B> {
    pub writer: WriterState<B>,
    pub pool: PoolState<B>,
    pub bindings: Seq<InstanceBinding>,
    pub error: Option<InstanceError>,
}

/// The reservations of arrays of these `sizes`, made in order until one does not fit.
pub open spec fn reserve_all<B>(
    writer: WriterState<B>,
    pool: PoolState<B>,
    sizes: Seq<usize>,
) -> Reservations<B>
    decreases sizes.len(),
{
    if sizes.len() == 0 {
        Reservations { writer, pool, bindings: seq![], error: None }
    } else {
        let earlier = reserve_all(writer, pool, sizes.drop_last());
        if earlier.error is Some {
            earlier
        } else {
            let placement = earlier.writer.place(earlier.pool, sizes.last());
            match placement.placed {
                Err(error) => Reservations { error: Some(error), ..earlier },
                Ok(binding) => Reservations {
                    writer: placement.writer,
                    pool: placement.pool,
                    bindings: earlier.bindings.push(binding),
                    error: None,
                },
            }
        }
    }
}

/// The ranges of the buffers whose first `used` bytes were written.
pub open spec fn used_ranges(used: Seq<usize>) -> Seq<ModifiedRange>
    decreases used.len(),
{
    if used.len() == 0 {
        seq![]
    } else if used.last() > 0 {
        used_ranges(used.drop_last()).push(
            ModifiedRange { buffer: (used.len() - 1) as usize, length: used.last() },
        )
    } else {
        used_ranges(used.drop_last())
    }
}

/// The first `length` bytes of one of a frame's buffers.
#[derive(Debug, Clone, Copy, PartialEq, Eq, Structural)]
pub struct ModifiedRange {
    pub buffer: usize,
    pub length: usize,
}

/// The buffers of a finished frame.
#[derive(Debug)]
pub struct FrameBuffers<B> {
    /// In the order the frame took them up. Metal retains encoded resources until the command
    /// buffer completes, so only the last and largest is worth releasing to the pool.
    pub buffers: Vec<InstanceBuffer<B>>,
    /// What the GPU must be told the CPU modified; nothing where they share memory.
    pub modified: Vec<ModifiedRange>,
}

/// Packs a frame's instance arrays into buffers.
#[derive(Debug)]
pub struct InstanceBufferWriter<B> {
    unified_memory: bool,
    filled: Vec<InstanceBuffer<B>>,
    written: Vec<usize>,
    current: InstanceBuffer<B>,
    offset: usize,
}

impl<B> View for InstanceBufferWriter<B> {
    type V = WriterState<B>;

    closed spec fn view(&self) -> WriterState<B> {
        WriterState {
            buffers: self.filled@.push(self.current),
            written: self.written@,
            offset: self.offset,
        }
    }
}

impl<B> InstanceBufferWriter<B> {
    /// Whether the CPU and the GPU share the memory written to.
    pub closed spec fn shares_memory(self) -> bool {
        self.unified_memory
    }

    /// Takes up a first buffer.
    pub fn new(pool: &mut InstanceBufferPool<B>, unified_memory: bool) -> (writer: Self)
        requires
            old(pool)@.valid(),
        ensures
            final(pool)@ == old(pool)@.without_next(),
            final(pool)@.valid(),
            writer@ == WriterState::starting_with(old(pool)@.next()),
            writer@.valid(),
            writer.shares_memory() == unified_memory,
    {
        let current = pool.acquire();
        let writer = InstanceBufferWriter {
            unified_memory,
            filled: Vec::new(),
            written: Vec::new(),
            current,
            offset: 0,
        };
        proof {
            assert(writer@.buffers =~= seq![current]);
            assert(writer@.written =~= seq![]);
        }
        writer
    }

    /// Reserves room for `count` elements of `element_size` bytes each. The reservation lies
    /// within a buffer the frame owns and overlaps none made earlier.
    pub fn allocate(
        &mut self,
        pool: &mut InstanceBufferPool<B>,
        element_size: usize,
        count: usize,
    ) -> (placed: Result<InstanceBinding, InstanceError>)
        requires
            old(self)@.valid(),
            old(pool)@.valid(),
            element_size * count <= isize::MAX,
        ensures
            final(self)@.valid(),
            final(pool)@.valid(),
            final(self).shares_memory() == old(self).shares_memory(),
            ({
                let placement = old(self)@.place(
                    old(pool)@,
                    (element_size * count) as usize,
                );
                &&& placed == placement.placed
                &&& final(self)@ == placement.writer
                &&& final(pool)@ == placement.pool
            }),
    {
        let size: usize = element_size * count;
        let start: usize = (self.offset + INSTANCE_BUFFER_ALIGNMENT - 1) / INSTANCE_BUFFER_ALIGNMENT
            * INSTANCE_BUFFER_ALIGNMENT;
        let mut offset: usize = start;
        if offset + size > self.current.size {
            match self.grow(pool, size) {
                Ok(()) => {},
                Err(error) => return Err(error),
            }
            offset = 0;
        }
        self.offset = offset + size;
        Ok(InstanceBinding { buffer: self.filled.len(), offset })
    }

    /// Moves on to a buffer that holds `required` bytes and more than the current one.
    pub fn grow(&mut self, pool: &mut InstanceBufferPool<B>, required: usize) -> (grown: Result<
        (),
        InstanceError,
    >)
        requires
            old(self)@.valid(),
            old(pool)@.valid(),
            required <= isize::MAX,
        ensures
            final(self)@.valid(),
            final(pool)@.valid(),
            final(self).shares_memory() == old(self).shares_memory(),
            match old(self)@.growth_error(old(pool)@, required) {
                Some(error) => grown == Err::<(), InstanceError>(error) && final(self)@ == old(
                    self,
                )@ && final(pool)@ == old(pool)@,
                None => {
                    let larger = old(self)@.grown_pool(old(pool)@, required);
                    &&& grown == Ok::<(), InstanceError>(())
                    &&& final(self)@ == old(self)@.moved_on(larger.next())
                    &&& final(pool)@ == larger.without_next()
                },
            },
    {
        let mut buffer_size: usize = pool.buffer_size() * 2;
        let needed: usize = smallest_power_of_two(required);
        if needed > buffer_size {
            buffer_size = needed;
        }
        if buffer_size > MAX_INSTANCE_BUFFER_SIZE {
            buffer_size = MAX_INSTANCE_BUFFER_SIZE;
        }
        if buffer_size < required {
            return Err(InstanceError::ArrayTooLarge { required });
        }
        if buffer_size <= self.current.size {
            return Err(InstanceError::FrameTooLarge);
        }
        if buffer_size != pool.buffer_size() {
            pool.reset(buffer_size);
        }
        let mut buffer = pool.acquire();
        std::mem::swap(&mut self.current, &mut buffer);
        self.filled.push(buffer);
        self.written.push(self.offset);
        self.offset = 0;
        Ok(())
    }

    /// The frame's buffers, and what the GPU must be told of them.
    pub fn finish(self) -> (frame: FrameBuffers<B>)
        requires
            self@.valid(),
        ensures
            frame.buffers@ == self@.buffers,
            frame.modified@ == if self.shares_memory() {
                seq![]
            } else {
                self@.modified()
            },
    {
        let InstanceBufferWriter { unified_memory, filled, written, current, offset } = self;
        let mut modified: Vec<ModifiedRange> = Vec::new();
        let mut used = written;
        used.push(offset);
        if !unified_memory {
            let mut i: usize = 0;
            while i < used.len()
                invariant
                    i <= used.len(),
                    modified@ == used_ranges(used@.take(i as int)),
                decreases used.len() - i,
            {
                proof {
                    assert(used@.take(i + 1).drop_last() =~= used@.take(i as int));
                }
                if used[i] > 0 {
                    modified.push(ModifiedRange { buffer: i, length: used[i] });
                }
                i = i + 1;
            }
            proof {
                assert(used@.take(i as int) =~= used@);
            }
        }
        let mut buffers = filled;
        buffers.push(current);
        FrameBuffers { buffers, modified }
    }
}

} // verus!
