//! The bookkeeping of a video capture stream whose frames land in buffers of
//! a pool.
//!
//! The stream owns a pool and an arena of slots, one for each buffer that
//! the device may hold at a time. The calls to the device are made by the
//! stream's owner; this module decides what is queued, what a frame is
//! stored with, and when the stream gives up.

use vstd::prelude::*;
use crate::pool::{count_held, BufferHandle, HostMemoryPool, PoolModel};

verus! {

/// The number of buffers that a stream keeps in the device when none is
/// asked for.
pub const DEFAULT_BUFFER_COUNT: u32 = 4;

/// The error code of a device that is gone.
pub const ENODEV: i32 = 19;

/// What the device says of a frame that it has filled.
#[derive(Debug, Clone, Copy, PartialEq, Eq, Structural)]
pub struct FrameMetadata {
    /// The number of bytes that the frame takes in its buffer.
    pub bytesused: u32,
    /// The flags of the buffer.
    pub flags: u32,
    /// The field order of the frame.
    pub field: u32,
    /// The seconds of the frame's timestamp.
    pub timestamp_sec: i64,
    /// The microseconds of the frame's timestamp.
    pub timestamp_usec: i64,
    /// The sequence number of the frame.
    pub sequence: u32,
}

impl FrameMetadata {
    /// The metadata of a slot that holds no frame yet: all zero.
    pub open spec fn blank() -> FrameMetadata {
        FrameMetadata {
            bytesused: 0,
            flags: 0,
            field: 0,
            timestamp_sec: 0,
            timestamp_usec: 0,
            sequence: 0,
        }
    }

    /// The metadata of a slot that holds no frame yet: all zero.
    pub fn empty() -> (r: Self)
        ensures
            r == FrameMetadata::blank(),
    {
        FrameMetadata {
            bytesused: 0,
            flags: 0,
            field: 0,
            timestamp_sec: 0,
            timestamp_usec: 0,
            sequence: 0,
        }
    }
}

/// Why the stream cannot go on.
#[derive(Debug, Clone, Copy, PartialEq, Eq, Structural)]
pub enum StreamError {
    /// The pool has no free buffer to queue.
    PoolExhausted,
    /// The device had no frame within the timeout.
    TimedOut,
    /// The stream was not started.
    NotActive,
}

/// One slot of the arena: the metadata of the last frame, and the buffer
/// that the slot holds.
pub struct Slot {
    pub metadata: FrameMetadata,
    pub buffer: Option<int>,
}

/// The mathematical content of a [`CuV4LStream`].
pub struct StreamModel {
    /// The pool that the buffers come from.
    pub pool: PoolModel,
    /// The slots of the arena.
    pub arena: Seq<Slot>,
    /// The slot whose buffer the consumer was given last.
    pub last_freed: int,
    /// How long to wait for a frame, in milliseconds; `None`: without end.
    pub timeout: Option<i32>,
    /// Whether the stream was started and not stopped.
    pub active: bool,
}

/// Whether the buffer of the slot, where it holds one, is a buffer of the
/// pool with exactly one handle.
pub open spec fn held_once(pool: PoolModel, slot: Slot) -> bool {
    match slot.buffer {
        Some(b) => 0 <= b < pool.refs.len() && pool.refs[b] == 1,
        None => true,
    }
}

impl StreamModel {
    /// Whether the slots hold distinct buffers, each with exactly one
    /// handle, and the pool is conserved.
    pub open spec fn wf(self) -> bool {
        &&& self.pool.conserved()
        &&& forall|i: int| 0 <= i < self.arena.len() ==> held_once(self.pool, #[trigger] self.arena[i])
        &&& forall|i: int, j: int|
            0 <= i < self.arena.len() && 0 <= j < self.arena.len() && i != j && (
            #[trigger] self.arena[i]).buffer is Some ==> self.arena[i].buffer != (
            #[trigger] self.arena[j]).buffer
        &&& 0 <= self.last_freed
        &&& self.arena.len() > 0 ==> self.last_freed < self.arena.len()
    }
}

/// The bookkeeping of a capture stream.
pub struct CuV4LStream {
    memory_pool: HostMemoryPool,
    arena: Vec<(FrameMetadata, Option<BufferHandle>)>,
    arena_last_freed_up_index: usize,
    timeout: Option<i32>,
    active: bool,
}

/// The content of one slot.
pub closed spec fn slot_of(entry: (FrameMetadata, Option<BufferHandle>)) -> Slot {
    Slot {
        metadata: entry.0,
        buffer: match entry.1 {
            Some(h) => Some(h.buffer()),
            None => None,
        },
    }
}

impl View for CuV4LStream {
    type V = StreamModel;

    closed spec fn view(&self) -> StreamModel {
        StreamModel {
            pool: self.memory_pool@,
            arena: Seq::new(self.arena@.len(), |i: int| slot_of(self.arena@[i])),
            last_freed: self.arena_last_freed_up_index as int,
            timeout: self.timeout,
            active: self.active,
        }
    }
}

impl CuV4LStream {
    #[verifier::type_invariant]
    spec fn inv(&self) -> bool {
        self@.wf()
    }

    /// A stream that keeps four buffers in the device.
    pub fn new(buf_size: usize, page_size: usize) -> (r: Self)
        ensures
            r@.wf(),
            r@.arena.len() == DEFAULT_BUFFER_COUNT,
            r@.pool.capacity == DEFAULT_BUFFER_COUNT + 1,
            r@.pool.buf_size == buf_size,
            r@.pool.alignment == page_size,
            r@.pool.outstanding() == 0,
            r@.pool.free.len() == DEFAULT_BUFFER_COUNT + 1,
            forall|k: int|
                0 <= k <= DEFAULT_BUFFER_COUNT ==> r@.pool.free[k] == DEFAULT_BUFFER_COUNT - k,
            forall|i: int|
                0 <= i < r@.arena.len() ==> (#[trigger] r@.arena[i]) == (Slot {
                    metadata: FrameMetadata::blank(),
                    buffer: None,
                }),
            r@.last_freed == 0,
            r@.timeout is None,
            !r@.active,
    {
        CuV4LStream::with_buffers(buf_size, DEFAULT_BUFFER_COUNT, page_size)
    }

    /// A stream that keeps `buf_count` buffers in the device. Its pool has
    /// one buffer more, so that a buffer can be queued before the oldest is
    /// given up. The stream is not started and waits without end.
    pub fn with_buffers(buf_size: usize, buf_count: u32, page_size: usize) -> (r: Self)
        requires
            buf_count < u32::MAX,
        ensures
            r@.wf(),
            r@.arena.len() == buf_count,
            r@.pool.capacity == buf_count + 1,
            r@.pool.buf_size == buf_size,
            r@.pool.alignment == page_size,
            r@.pool.outstanding() == 0,
            r@.pool.free.len() == buf_count + 1,
            forall|k: int| 0 <= k <= buf_count ==> r@.pool.free[k] == buf_count - k,
            forall|i: int|
                0 <= i < r@.arena.len() ==> (#[trigger] r@.arena[i]) == (Slot {
                    metadata: FrameMetadata::blank(),
                    buffer: None,
                }),
            r@.last_freed == 0,
            r@.timeout is None,
            !r@.active,
    {
        let memory_pool = HostMemoryPool::new(buf_size, buf_count + 1, page_size);
        let mut arena: Vec<(FrameMetadata, Option<BufferHandle>)> = Vec::new();
        let mut i: u32 = 0;
        while i < buf_count
            invariant
                i <= buf_count,
                arena@.len() == i,
                forall|j: int|
                    0 <= j < i ==> (#[trigger] arena@[j]).0 == FrameMetadata::blank()
                        && arena@[j].1 is None,
            decreases buf_count - i,
        {
            arena.push((FrameMetadata::empty(), None));
            i = i + 1;
        }
        CuV4LStream {
            memory_pool,
            arena,
            arena_last_freed_up_index: 0,
            timeout: None,
            active: false,
        }
    }

    /// Sets how long the stream waits for a frame, in milliseconds.
    pub fn set_timeout(&mut self, millis: u128)
        requires
            millis <= i32::MAX,
        ensures
            final(self)@ == (StreamModel { timeout: Some(millis as i32), ..old(self)@ }),
    {
        proof {
            use_type_invariant(&*self);
        }
        self.timeout = Some(millis as i32);
    }

    /// Lets the stream wait for a frame without end.
    pub fn clear_timeout(&mut self)
        ensures
            final(self)@ == (StreamModel { timeout: None, ..old(self)@ }),
    {
        proof {
            use_type_invariant(&*self);
        }
        self.timeout = None;
    }

    /// The timeout to poll the device with: the milliseconds that were set,
    /// or -1 to wait without end.
    pub fn poll_timeout(&self) -> (r: i32)
        ensures
            r == match self@.timeout {
                Some(t) => t,
                None => -1i32,
            },
    {
        match self.timeout {
            Some(t) => t,
            None => -1,
        }
    }

    /// The number of slots.
    pub fn slot_count(&self) -> (n: usize)
        ensures
            n == self@.arena.len(),
    {
        self.arena.len()
    }

    /// Whether the stream was started and not stopped.
    pub fn is_active(&self) -> (r: bool)
        ensures
            r == self@.active,
    {
        self.active
    }

    /// The pool that the buffers come from.
    pub fn pool(&self) -> (r: &HostMemoryPool)
        ensures
            r@ == self@.pool,
    {
        &self.memory_pool
    }

    /// The index of the buffer that the slot `index` holds, where it holds
    /// one.
    pub fn buffer_in_slot(&self, index: usize) -> (r: Option<usize>)
        requires
            index < self@.arena.len(),
        ensures
            match r {
                Some(b) => self@.arena[index as int].buffer == Some(b as int),
                None => self@.arena[index as int].buffer is None,
            },
    {
        assert(self@.arena[index as int] == slot_of(self.arena@[index as int]));
        match &self.arena[index].1 {
            Some(h) => Some(h.index()),
            None => None,
        }
    }

    /// Takes a buffer from the pool to queue it in the device. The stream
    /// gives up where the pool has no free buffer.
    pub fn queue_prepare(&mut self) -> (r: Result<BufferHandle, StreamError>)
        ensures
            final(self)@.arena == old(self)@.arena,
            final(self)@.last_freed == old(self)@.last_freed,
            final(self)@.timeout == old(self)@.timeout,
            final(self)@.active == old(self)@.active,
            match r {
                Ok(handle) => {
                    &&& old(self)@.pool.free.len() > 0
                    &&& handle.buffer() == old(self)@.pool.free.last()
                    &&& final(self)@.pool == (PoolModel {
                        free: old(self)@.pool.free.drop_last(),
                        refs: old(self)@.pool.refs.update(handle.buffer(), 1),
                        ..old(self)@.pool
                    })
                    &&& free_for_a_slot(final(self)@, handle)
                },
                Err(e) => e == StreamError::PoolExhausted && old(self)@.pool.free.len() == 0
                    && final(self)@.pool == old(self)@.pool,
            },
    {
        proof {
            use_type_invariant(&*self);
        }
        let CuV4LStream { mut memory_pool, arena, arena_last_freed_up_index, timeout, active } =
            self.take();
        let ghost before = memory_pool@;
        let r = match memory_pool.allocate() {
            Some(handle) => Ok(handle),
            None => Err(StreamError::PoolExhausted),
        };
        proof {
            if r is Ok {
                let b = r->Ok_0.buffer();
                assert(before.refs[b] == 0) by {
                    assert(before.free[before.free.len() - 1] == b);
                }
            }
        }
        *self = CuV4LStream { memory_pool, arena, arena_last_freed_up_index, timeout, active };
        assert(self@.arena =~= old(self)@.arena);
        r
    }

    /// Gives a buffer back that the device did not take.
    pub fn queue_abort(&mut self, handle: BufferHandle)
        requires
            free_for_a_slot(old(self)@, handle),
        ensures
            final(self)@ == (StreamModel {
                pool: PoolModel {
                    free: old(self)@.pool.free.push(handle.buffer() as usize),
                    refs: old(self)@.pool.refs.update(handle.buffer(), 0),
                    ..old(self)@.pool
                },
                ..old(self)@
            }),
    {
        proof {
            use_type_invariant(&*self);
        }
        let CuV4LStream { mut memory_pool, arena, arena_last_freed_up_index, timeout, active } =
            self.take();
        memory_pool.release(handle);
        *self = CuV4LStream { memory_pool, arena, arena_last_freed_up_index, timeout, active };
        assert(self@.arena =~= old(self)@.arena);
    }

    /// Records that the device took `handle` for the slot `index`. The slot
    /// starts with empty metadata; the buffer that it held goes back to the
    /// pool.
    pub fn queue_commit(&mut self, index: usize, handle: BufferHandle)
        requires
            index < old(self)@.arena.len(),
            free_for_a_slot(old(self)@, handle),
        ensures
            final(self)@.arena == old(self)@.arena.update(
                index as int,
                Slot { metadata: FrameMetadata::blank(), buffer: Some(handle.buffer()) },
            ),
            final(self)@.pool == match old(self)@.arena[index as int].buffer {
                Some(b) => PoolModel {
                    free: old(self)@.pool.free.push(b as usize),
                    refs: old(self)@.pool.refs.update(b, 0),
                    ..old(self)@.pool
                },
                None => old(self)@.pool,
            },
            final(self)@.last_freed == old(self)@.last_freed,
            final(self)@.timeout == old(self)@.timeout,
            final(self)@.active == old(self)@.active,
    {
        proof {
            use_type_invariant(&*self);
        }
        let ghost before = self@;
        let ghost b = handle.buffer();
        let CuV4LStream { mut memory_pool, mut arena, arena_last_freed_up_index, timeout, active } =
            self.take();
        let ghost entries = arena@;
        assert(before.arena[index as int] == slot_of(entries[index as int]));
        // the new entry takes the place of the old one, which comes out
        arena.push((FrameMetadata::empty(), Some(handle)));
        let previous = arena.swap_remove(index);
        assert(arena@ =~= entries.update(index as int, (FrameMetadata::blank(), Some(handle))));
        match previous.1 {
            Some(h) => {
                memory_pool.release(h);
            },
            None => {},
        }
        proof {
            let after = Seq::new(arena@.len(), |i: int| slot_of(arena@[i]));
            assert(after =~= before.arena.update(
                index as int,
                Slot { metadata: FrameMetadata::blank(), buffer: Some(b) },
            ));
            assert forall|i: int| 0 <= i < after.len() implies held_once(
                memory_pool@,
                #[trigger] after[i],
            ) by {
                if i != index {
                    assert(after[i] == before.arena[i]);
                }
            }
            assert forall|i: int, j: int|
                0 <= i < after.len() && 0 <= j < after.len() && i != j && (
                #[trigger] after[i]).buffer is Some implies after[i].buffer != (
            #[trigger] after[j]).buffer by {
                if i != index {
                    assert(after[i] == before.arena[i]);
                }
                if j != index {
                    assert(after[j] == before.arena[j]);
                }
            }
        }
        *self = CuV4LStream { memory_pool, arena, arena_last_freed_up_index, timeout, active };
    }

    /// Records that the device streams: the slot 0 is the first to be
    /// queued again.
    pub fn started(&mut self)
        ensures
            final(self)@ == (StreamModel { last_freed: 0, active: true, ..old(self)@ }),
    {
        proof {
            use_type_invariant(&*self);
        }
        self.arena_last_freed_up_index = 0;
        self.active = true;
    }

    /// Records that the device has stopped streaming.
    pub fn stopped(&mut self)
        ensures
            final(self)@ == (StreamModel { active: false, ..old(self)@ }),
    {
        proof {
            use_type_invariant(&*self);
        }
        self.active = false;
    }

    /// The slot to queue before the next frame is taken: the one whose
    /// buffer the consumer was given last. A stream that was not started
    /// has none.
    pub fn next_to_queue(&self) -> (r: Result<usize, StreamError>)
        ensures
            r == if self@.active {
                Ok::<usize, StreamError>(self@.last_freed as usize)
            } else {
                Err::<usize, StreamError>(StreamError::NotActive)
            },
    {
        if !self.active {
            Err(StreamError::NotActive)
        } else {
            Ok(self.arena_last_freed_up_index)
        }
    }

    /// Records the metadata of the frame that the device has filled in the
    /// slot `index`.
    pub fn dequeued(&mut self, index: usize, metadata: FrameMetadata)
        requires
            index < old(self)@.arena.len(),
        ensures
            final(self)@ == (StreamModel {
                arena: old(self)@.arena.update(
                    index as int,
                    Slot { metadata, buffer: old(self)@.arena[index as int].buffer },
                ),
                ..old(self)@
            }),
    {
        proof {
            use_type_invariant(&*self);
        }
        let ghost before = self@;
        let CuV4LStream { memory_pool, mut arena, arena_last_freed_up_index, timeout, active } =
            self.take();
        let ghost entries = arena@;
        assert(before.arena[index as int] == slot_of(entries[index as int]));
        // the entry comes out, and goes back in with the new metadata
        arena.push((metadata, None));
        let previous = arena.swap_remove(index);
        arena.push((metadata, previous.1));
        let _ = arena.swap_remove(index);
        proof {
            assert(arena@ =~= entries.update(index as int, (metadata, entries[index as int].1)));
            let after = Seq::new(arena@.len(), |i: int| slot_of(arena@[i]));
            assert(after =~= before.arena.update(
                index as int,
                Slot { metadata, buffer: before.arena[index as int].buffer },
            ));
            assert forall|i: int| 0 <= i < after.len() implies held_once(
                memory_pool@,
                #[trigger] after[i],
            ) by {
                assert(after[i].buffer == before.arena[i].buffer);
            }
            assert forall|i: int, j: int|
                0 <= i < after.len() && 0 <= j < after.len() && i != j && (
                #[trigger] after[i]).buffer is Some implies after[i].buffer != (
            #[trigger] after[j]).buffer by {
                assert(after[i].buffer == before.arena[i].buffer);
                assert(after[j].buffer == before.arena[j].buffer);
            }
        }
        *self = CuV4LStream { memory_pool, arena, arena_last_freed_up_index, timeout, active };
    }

    /// Gives the consumer the frame of the slot `index`: its buffer and its
    /// metadata. The slot is the next to be queued again.
    pub fn take_frame(&mut self, index: usize) -> (r: (usize, FrameMetadata))
        requires
            index < old(self)@.arena.len(),
            old(self)@.arena[index as int].buffer is Some,
        ensures
            r.0 == old(self)@.arena[index as int].buffer->Some_0,
            r.1 == old(self)@.arena[index as int].metadata,
            final(self)@ == (StreamModel { last_freed: index as int, ..old(self)@ }),
    {
        proof {
            use_type_invariant(&*self);
        }
        assert(self@.arena[index as int] == slot_of(self.arena@[index as int]));
        let buffer = match &self.arena[index].1 {
            Some(h) => h.index(),
            None => 0,
        };
        let metadata = self.arena[index].0;
        self.arena_last_freed_up_index = index;
        (buffer, metadata)
    }

    /// Moves the stream out and leaves a stream without slots behind.
    fn take(&mut self) -> (r: Self)
        ensures
            r@ == old(self)@,
            r@.wf(),
            r.arena@ == old(self).arena@,
    {
        proof {
            use_type_invariant(&*self);
        }
        let mut r = CuV4LStream {
            memory_pool: HostMemoryPool::new(0, 0, 0),
            arena: Vec::new(),
            arena_last_freed_up_index: 0,
            timeout: None,
            active: false,
        };
        std::mem::swap(self, &mut r);
        r
    }
}

/// Whether `handle` is the only handle on its buffer and no slot holds that
/// buffer: the state of a buffer between the pool and a slot.
pub open spec fn free_for_a_slot(s: StreamModel, handle: BufferHandle) -> bool {
    &&& 0 <= handle.buffer() < s.pool.refs.len()
    &&& s.pool.refs[handle.buffer()] == 1
    &&& forall|i: int|
        0 <= i < s.arena.len() ==> (#[trigger] s.arena[i]).buffer != Some(handle.buffer())
}

/// Whether the wait for a frame ended with one: a poll that reports no
/// ready descriptor has timed out.
pub fn poll_outcome(ready: i32) -> (r: Result<(), StreamError>)
    ensures
        r == if ready == 0 {
            Err::<(), StreamError>(StreamError::TimedOut)
        } else {
            Ok::<(), StreamError>(())
        },
{
    if ready == 0 {
        Err(StreamError::TimedOut)
    } else {
        Ok(())
    }
}

/// Whether a stream that is dropped may pass over the error of its last
/// stop: only that of a device that is gone.
pub fn ignorable_on_drop(os_error: Option<i32>) -> (r: bool)
    ensures
        r == (os_error == Some(ENODEV)),
{
    match os_error {
        Some(code) => code == ENODEV,
        None => false,
    }
}


/// Whether every buffer that is handed out is held by a slot: no buffer is
/// on its way between the pool and a slot.
pub open spec fn settled(s: StreamModel) -> bool {
    forall|b: int|
        0 <= b < s.pool.refs.len() && #[trigger] s.pool.refs[b] > 0 ==> exists|i: int|
            0 <= i < s.arena.len() && (#[trigger] s.arena[i]).buffer == Some(b)
}

/// The buffer of the slot at `i`, or a number that is no buffer where the
/// slot holds none.
pub open spec fn buffer_or_none(arena: Seq<Slot>, i: int) -> int {
    match arena[i].buffer {
        Some(b) => b,
        None => -1,
    }
}

/// The buffers with a handle among the first `n`, as a set.
pub open spec fn held_set(refs: Seq<usize>, n: nat) -> Set<int> {
    Set::new(|b: int| 0 <= b < n && refs[b] > 0)
}

/// The set of the buffers with a handle has as many members as the count
/// of those buffers says.
proof fn lemma_held_set_len(refs: Seq<usize>, n: nat)
    requires
        n <= refs.len(),
    ensures
        held_set(refs, n).finite(),
        held_set(refs, n).len() == count_held(refs, n),
    decreases n,
{
    if n == 0 {
        assert(held_set(refs, n) =~= Set::empty());
    } else {
        lemma_held_set_len(refs, (n - 1) as nat);
        if refs[n - 1] > 0 {
            assert(held_set(refs, n) =~= held_set(refs, (n - 1) as nat).insert(n - 1));
        } else {
            assert(held_set(refs, n) =~= held_set(refs, (n - 1) as nat));
        }
    }
}

/// A stream whose pool has more buffers than the stream has slots, and in
/// which no buffer is on its way, has a free buffer: the next buffer can be
/// queued before the oldest is given up.
pub proof fn lemma_settled_stream_has_a_free_buffer(s: StreamModel)
    requires
        s.wf(),
        settled(s),
        s.pool.capacity > s.arena.len(),
    ensures
        s.pool.free.len() > 0,
{
    let held = held_set(s.pool.refs, s.pool.refs.len());
    lemma_held_set_len(s.pool.refs, s.pool.refs.len());
    let in_slots = Seq::new(s.arena.len(), |i: int| buffer_or_none(s.arena, i));
    in_slots.lemma_cardinality_of_set();
    assert(held.subset_of(in_slots.to_set())) by {
        assert forall|b: int| held.contains(b) implies in_slots.to_set().contains(b) by {
            let i = choose|i: int| 0 <= i < s.arena.len() && (#[trigger] s.arena[i]).buffer == Some(b);
            assert(in_slots[i] == b);
        }
    }
    vstd::seq_lib::seq_to_set_is_finite(in_slots);
    vstd::set_lib::lemma_len_subset(held, in_slots.to_set());
}

} // verus!
