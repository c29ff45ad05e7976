//! The bookkeeping of a bounded pool of equal buffers that are handed out
//! as counted handles.
//!
//! The pool keeps track of which buffer is free and of how many handles
//! point at each buffer that is not. The memory itself belongs to whoever
//! owns the pool: a buffer is known here by its index.

use vstd::prelude::*;

verus! {

/// A handle on one buffer of a pool. It is given out by the pool and given
/// back to it.
#[derive(Debug, PartialEq, Eq)]
pub struct BufferHandle {
    index: usize,
}

impl BufferHandle {
    /// The index of the buffer that the handle points at.
    pub closed spec fn buffer(&self) -> int {
        self.index as int
    }

    /// The index of the buffer that the handle points at.
    pub fn index(&self) -> (i: usize)
        ensures
            i == self.buffer(),
    {
        self.index
    }
}

/// The number of buffers with at least one handle among the first `n`.
pub open spec fn count_held(refs: Seq<usize>, n: nat) -> nat
    decreases n,
{
    if n == 0 {
        0
    } else {
        count_held(refs, (n - 1) as nat) + if refs[n - 1] > 0 {
            1nat
        } else {
            0nat
        }
    }
}

/// The mathematical content of a [`HostMemoryPool`].
pub struct PoolModel {
    /// The size of each buffer in bytes.
    pub buf_size: usize,
    /// The number of buffers.
    pub capacity: u32,
    /// The alignment of each buffer in bytes.
    pub alignment: usize,
    /// The free buffers; the last one is handed out next.
    pub free: Seq<usize>,
    /// The number of handles on each buffer.
    pub refs: Seq<usize>,
}

impl PoolModel {
    /// The number of buffers with at least one handle.
    pub open spec fn outstanding(self) -> nat {
        count_held(self.refs, self.refs.len())
    }

    /// Whether `handle` points at a buffer of the pool that is handed out.
    pub open spec fn holds(self, handle: BufferHandle) -> bool {
        0 <= handle.buffer() < self.refs.len() && self.refs[handle.buffer()] > 0
    }

    /// Whether the buffers with a handle and the free buffers are, together,
    /// all buffers: a buffer is free exactly when it has no handle, and it
    /// is in the free list once.
    pub open spec fn conserved(self) -> bool {
        &&& self.refs.len() == self.capacity
        &&& self.outstanding() + self.free.len() == self.capacity
        &&& forall|k: int| 0 <= k < self.free.len() ==> (#[trigger] self.free[k]) < self.capacity
        &&& forall|k: int| 0 <= k < self.free.len() ==> self.refs[(#[trigger] self.free[k]) as int] == 0
        &&& forall|k: int, l: int| 0 <= k < l < self.free.len() ==> self.free[k] != self.free[l]
    }
}

/// Giving a buffer without handles its first handle adds one to the buffers
/// that are held; taking the last handle away removes one; any other change
/// of a count leaves the number as it is. The other buffers do not matter.
pub proof fn lemma_count_held_update(refs: Seq<usize>, i: int, v: usize, n: nat)
    requires
        0 <= i < refs.len(),
        n <= refs.len(),
    ensures
        count_held(refs.update(i, v), n) == count_held(refs, n) + if i < n && refs[i] == 0 && v > 0 {
            1int
        } else if i < n && refs[i] > 0 && v == 0 {
            -1int
        } else {
            0int
        },
    decreases n,
{
    if n > 0 {
        lemma_count_held_update(refs, i, v, (n - 1) as nat);
    }
}

/// A bounded pool of equal buffers.
pub struct HostMemoryPool {
    buf_size: usize,
    capacity: u32,
    alignment: usize,
    free: Vec<usize>,
    refs: Vec<usize>,
}

impl View for HostMemoryPool {
    type V = PoolModel;

    closed spec fn view(&self) -> PoolModel {
        PoolModel {
            buf_size: self.buf_size,
            capacity: self.capacity,
            alignment: self.alignment,
            free: self.free@,
            refs: self.refs@,
        }
    }
}

impl HostMemoryPool {
    #[verifier::type_invariant]
    spec fn inv(&self) -> bool {
        self@.conserved()
    }

    /// A pool of `capacity` free buffers of `buf_size` bytes each. The
    /// buffer with the lowest index is handed out first.
    pub fn new(buf_size: usize, capacity: u32, alignment: usize) -> (r: Self)
        ensures
            r@.buf_size == buf_size,
            r@.capacity == capacity,
            r@.alignment == alignment,
            r@.free.len() == capacity,
            forall|k: int| 0 <= k < capacity ==> r@.free[k] == capacity - 1 - k,
            forall|b: int| 0 <= b < capacity ==> r@.refs[b] == 0,
            r@.outstanding() == 0,
            r@.conserved(),
    {
        let mut free: Vec<usize> = Vec::new();
        let mut refs: Vec<usize> = Vec::new();
        let mut k: u32 = 0;
        while k < capacity
            invariant
                k <= capacity,
                free@.len() == k,
                refs@.len() == k,
                forall|j: int| 0 <= j < k ==> free@[j] == capacity - 1 - j,
                forall|j: int| 0 <= j < k ==> refs@[j] == 0,
                count_held(refs@, k as nat) == 0,
            decreases capacity - k,
        {
            let ghost before = refs@;
            free.push((capacity - 1 - k) as usize);
            refs.push(0);
            proof {
                lemma_count_held_prefix(before, refs@, k as nat);
            }
            k = k + 1;
        }
        HostMemoryPool { buf_size, capacity, alignment, free, refs }
    }

    /// Hands out a free buffer, or `None` where no buffer is free.
    pub fn allocate(&mut self) -> (r: Option<BufferHandle>)
        ensures
            final(self)@.conserved(),
            match r {
                Some(handle) => {
                    &&& old(self)@.free.len() > 0
                    &&& handle.buffer() == old(self)@.free.last()
                    &&& final(self)@ == (PoolModel {
                        free: old(self)@.free.drop_last(),
                        refs: old(self)@.refs.update(handle.buffer(), 1),
                        ..old(self)@
                    })
                    &&& final(self)@.outstanding() == old(self)@.outstanding() + 1
                    &&& final(self)@.holds(handle)
                },
                None => {
                    &&& old(self)@.free.len() == 0
                    &&& old(self)@.outstanding() == old(self)@.capacity
                    &&& final(self)@ == old(self)@
                },
            },
    {
        proof {
            use_type_invariant(&*self);
        }
        let HostMemoryPool { buf_size, capacity, alignment, mut free, mut refs } = self.take();
        let ghost old_free = free@;
        let ghost old_refs = refs@;
        let r = match free.pop() {
            Some(index) => {
                assert(old_free[old_free.len() - 1] == index);
                refs.set(index, 1);
                proof {
                    lemma_count_held_update(old_refs, index as int, 1, old_refs.len());
                }
                Some(BufferHandle { index })
            },
            None => None,
        };
        *self = HostMemoryPool { buf_size, capacity, alignment, free, refs };
        r
    }

    /// Adds a handle on the buffer that `handle` points at.
    pub fn retain(&mut self, handle: &BufferHandle) -> (r: BufferHandle)
        requires
            old(self)@.holds(*handle),
            old(self)@.refs[handle.buffer()] < usize::MAX,
        ensures
            r.buffer() == handle.buffer(),
            final(self)@ == (PoolModel {
                refs: old(self)@.refs.update(
                    handle.buffer(),
                    (old(self)@.refs[handle.buffer()] + 1) as usize,
                ),
                ..old(self)@
            }),
            final(self)@.outstanding() == old(self)@.outstanding(),
            final(self)@.conserved(),
    {
        proof {
            use_type_invariant(&*self);
        }
        let HostMemoryPool { buf_size, capacity, alignment, free, mut refs } = self.take();
        let ghost old_refs = refs@;
        let count = refs[handle.index] + 1;
        refs.set(handle.index, count);
        proof {
            lemma_count_held_update(old_refs, handle.index as int, count, old_refs.len());
        }
        *self = HostMemoryPool { buf_size, capacity, alignment, free, refs };
        BufferHandle { index: handle.index }
    }

    /// Takes a handle back. The buffer is free again when this was the last
    /// handle on it; it is then the next to be handed out.
    pub fn release(&mut self, handle: BufferHandle)
        requires
            old(self)@.holds(handle),
        ensures
            final(self)@ == (PoolModel {
                refs: old(self)@.refs.update(
                    handle.buffer(),
                    (old(self)@.refs[handle.buffer()] - 1) as usize,
                ),
                free: if old(self)@.refs[handle.buffer()] == 1 {
                    old(self)@.free.push(handle.buffer() as usize)
                } else {
                    old(self)@.free
                },
                ..old(self)@
            }),
            final(self)@.outstanding() == if old(self)@.refs[handle.buffer()] == 1 {
                old(self)@.outstanding() - 1
            } else {
                old(self)@.outstanding() as int
            },
            final(self)@.conserved(),
    {
        proof {
            use_type_invariant(&*self);
        }
        let HostMemoryPool { buf_size, capacity, alignment, mut free, mut refs } = self.take();
        let ghost old_refs = refs@;
        let ghost old_free = free@;
        let count = refs[handle.index] - 1;
        refs.set(handle.index, count);
        proof {
            lemma_count_held_update(old_refs, handle.index as int, count, old_refs.len());
        }
        if count == 0 {
            free.push(handle.index);
            proof {
                assert forall|k: int, l: int| 0 <= k < l < free@.len() implies free@[k]
                    != free@[l] by {
                    if l == old_free.len() {
                        assert(old_refs[old_free[k] as int] == 0);
                    }
                }
            }
        }
        *self = HostMemoryPool { buf_size, capacity, alignment, free, refs };
    }

    /// Moves the pool out and leaves a pool without buffers behind.
    fn take(&mut self) -> (r: Self)
        ensures
            r@ == old(self)@,
            r@.conserved(),
    {
        proof {
            use_type_invariant(&*self);
        }
        let mut r = HostMemoryPool {
            buf_size: 0,
            capacity: 0,
            alignment: 0,
            free: Vec::new(),
            refs: Vec::new(),
        };
        std::mem::swap(self, &mut r);
        r
    }

    /// The size of each buffer in bytes.
    pub fn buf_size(&self) -> (r: usize)
        ensures
            r == self@.buf_size,
    {
        self.buf_size
    }

    /// The number of buffers.
    pub fn capacity(&self) -> (r: u32)
        ensures
            r == self@.capacity,
    {
        self.capacity
    }

    /// The alignment of each buffer in bytes.
    pub fn alignment(&self) -> (r: usize)
        ensures
            r == self@.alignment,
    {
        self.alignment
    }

    /// The number of free buffers.
    pub fn free_count(&self) -> (r: usize)
        ensures
            r == self@.free.len(),
            self@.conserved(),
    {
        proof {
            use_type_invariant(self);
        }
        self.free.len()
    }

    /// The number of buffers that are handed out.
    pub fn outstanding(&self) -> (r: usize)
        ensures
            r == self@.outstanding(),
            r + self@.free.len() == self@.capacity,
    {
        proof {
            use_type_invariant(self);
        }
        self.capacity as usize - self.free.len()
    }

    /// The number of handles on the buffer with the index `buffer`.
    pub fn handles_on(&self, buffer: usize) -> (r: usize)
        requires
            buffer < self@.capacity,
        ensures
            r == self@.refs[buffer as int],
    {
        proof {
            use_type_invariant(self);
        }
        self.refs[buffer]
    }
}

/// The count over the first items does not look at the later ones.
proof fn lemma_count_held_prefix(a: Seq<usize>, b: Seq<usize>, n: nat)
    requires
        n <= a.len(),
        n <= b.len(),
        forall|j: int| 0 <= j < n ==> a[j] == b[j],
    ensures
        count_held(a, n) == count_held(b, n),
    decreases n,
{
    if n > 0 {
        lemma_count_held_prefix(a, b, (n - 1) as nat);
    }
}

} // verus!
