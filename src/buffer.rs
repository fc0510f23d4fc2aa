use vstd::prelude::*;

verus! {

/// A single-channel block of samples that the output device plays as one unit.
///
/// The handle names the device-side buffer; the capacity is fixed when the
/// buffer is created and never changes while it is recycled.
pub struct AudioBuffer<T> {
    handle: u64,
    capacity: usize,
    samples: Vec<T>,
}

impl<T> AudioBuffer<T> {
    /// The channel data never holds more samples than the buffer has room for.
    #[verifier::type_invariant]
    spec fn fits(&self) -> bool {
        self.samples@.len() <= self.capacity
    }

    pub closed spec fn id(&self) -> u64 {
        self.handle
    }

    pub closed spec fn cap(&self) -> usize {
        self.capacity
    }

    pub closed spec fn data(&self) -> Seq<T> {
        self.samples@
    }

    /// The device handle this buffer stands for.
    pub fn handle(&self) -> (r: u64)
        ensures
            r == self.id(),
    {
        self.handle
    }

    /// The number of frames the buffer was created for.
    pub fn capacity(&self) -> (r: usize)
        ensures
            r == self.cap(),
    {
        self.capacity
    }

    /// The samples last written to channel 0.
    pub fn samples(&self) -> (r: &Vec<T>)
        ensures
            r@ == self.data(),
            r@.len() <= self.cap(),
    {
        proof {
            use_type_invariant(self);
        }
        &self.samples
    }

    /// Replaces the channel data; the handle and the capacity stay.
    pub fn write(&mut self, samples: Vec<T>)
        requires
            samples@.len() <= old(self).cap(),
        ensures
            final(self).id() == old(self).id(),
            final(self).cap() == old(self).cap(),
            final(self).data() == samples@,
    {
        self.samples = samples;
    }
}

/// Why a buffer handed back to the pool was turned away.
#[derive(Debug, Clone, Copy, PartialEq, Eq, Structural)]
pub enum PoolError {
    /// The buffer is already in the free list.
    DoubleRelease,
    /// The handle was never given out by this pool.
    ForeignBuffer,
}

/// Handle and capacity of a free buffer, as the pool's contracts see it.
pub open spec fn entry_of<T>(b: AudioBuffer<T>) -> (u64, usize) {
    (b.id(), b.cap())
}

/// Some free entry has exactly the requested capacity.
pub open spec fn has_fit(free: Seq<(u64, usize)>, capacity: usize) -> bool {
    exists|i: int| 0 <= i < free.len() && (#[trigger] free[i]).1 == capacity
}

/// `i` is the most recently released free entry of the requested capacity.
pub open spec fn is_last_fit(free: Seq<(u64, usize)>, capacity: usize, i: int) -> bool {
    &&& 0 <= i < free.len()
    &&& free[i].1 == capacity
    &&& forall|j: int| i < j < free.len() ==> (#[trigger] free[j]).1 != capacity
}

/// Every free entry has the given capacity.
pub open spec fn all_of_capacity(free: Seq<(u64, usize)>, capacity: usize) -> bool {
    forall|i: int| 0 <= i < free.len() ==> (#[trigger] free[i]).1 == capacity
}

/// What taking a buffer of `capacity` frames out of pool `pre` does, leaving
/// `post` and handing out `b`.
///
/// The buffer was not lent out before and is lent out after. The most
/// recently released free buffer of that capacity is reused; only when there
/// is none is a new device buffer created, with the next handle. While every
/// free buffer has the requested capacity, the number of device buffers never
/// exceeds the larger of the count before and the number lent out after.
pub open spec fn acquired<T>(
    pre: BufferPool<T>,
    post: BufferPool<T>,
    capacity: usize,
    b: AudioBuffer<T>,
) -> bool {
    &&& b.cap() == capacity
    &&& !pre.lent().contains(b.id())
    &&& post.lent() == pre.lent().insert(b.id())
    &&& has_fit(pre.free_list(), capacity) ==> exists|i: int|
        is_last_fit(pre.free_list(), capacity, i) && b.id() == pre.free_list()[i].0
            && post.free_list() == pre.free_list().remove(i) && post.created() == pre.created()
    &&& !has_fit(pre.free_list(), capacity) ==> {
        &&& b.id() == pre.created()
        &&& post.created() == pre.created() + 1
        &&& post.free_list() == pre.free_list()
    }
    &&& all_of_capacity(pre.free_list(), capacity) ==> post.created() <= vstd::math::max(
        pre.created() as int,
        post.lent().len() as int,
    )
}

/// What handing lent buffer `b` back to pool `pre` does, leaving `post`: it
/// goes on top of the free list and is no longer lent out.
pub open spec fn returned<T>(pre: BufferPool<T>, post: BufferPool<T>, b: AudioBuffer<T>) -> bool {
    &&& pre.lent().contains(b.id())
    &&& post.free_list() == pre.free_list().push(entry_of(b))
    &&& post.lent() == pre.lent().remove(b.id())
    &&& post.created() == pre.created()
}

/// A buffer that has been acquired is not handed out by a later acquire while
/// it is still lent out.
pub proof fn lemma_no_double_lending<T>(
    p0: BufferPool<T>,
    p1: BufferPool<T>,
    p2: BufferPool<T>,
    p3: BufferPool<T>,
    c1: usize,
    c2: usize,
    b1: AudioBuffer<T>,
    b2: AudioBuffer<T>,
)
    requires
        acquired(p0, p1, c1, b1),
        p2.lent().contains(b1.id()),
        acquired(p2, p3, c2, b2),
    ensures
        b1.id() != b2.id(),
{
}

/// One acquire followed by the release of the same buffer, with nothing else
/// lent out and every free buffer of the one capacity in use, leaves the pool
/// in that same shape and raises the number of device buffers to at most one.
/// Repeated from an empty pool, such non-overlapping pairs thus never create a
/// second device buffer.
pub proof fn lemma_sequential_reuse<T>(
    p0: BufferPool<T>,
    p1: BufferPool<T>,
    p2: BufferPool<T>,
    c: usize,
    b: AudioBuffer<T>,
)
    requires
        p0.lent() == Set::<u64>::empty(),
        all_of_capacity(p0.free_list(), c),
        acquired(p0, p1, c, b),
        returned(p1, p2, b),
    ensures
        p2.lent() == Set::<u64>::empty(),
        all_of_capacity(p2.free_list(), c),
        p2.created() <= vstd::math::max(p0.created() as int, 1),
{
    assert(p1.lent() =~= set![b.id()]);
    assert(p2.lent() =~= Set::<u64>::empty());
    let f1 = p1.free_list();
    assert forall|i: int| 0 <= i < p2.free_list().len() implies (#[trigger] p2.free_list()[i]).1
        == c by {
        if i < f1.len() {
            if has_fit(p0.free_list(), c) {
                let k = choose|k: int|
                    is_last_fit(p0.free_list(), c, k) && b.id() == p0.free_list()[k].0
                        && p1.free_list() == p0.free_list().remove(k) && p1.created()
                        == p0.created();
                if i < k {
                    assert(f1[i] == p0.free_list()[i]);
                } else {
                    assert(f1[i] == p0.free_list()[i + 1]);
                }
            } else {
                assert(f1[i] == p0.free_list()[i]);
            }
        }
    }
}

/// A free list of device buffers, reused last-in first-out.
///
/// Handles are handed out in order `0, 1, 2, ...` when the pool has no free
/// buffer of the requested capacity, so `created` is the number of distinct
/// device buffers that exist. Every created handle is either free (in the
/// list) or lent out to a playback, never both.
pub struct BufferPool<T> {
    free: Vec<AudioBuffer<T>>,
    created: u64,
    lent: Ghost<Set<u64>>,
}

impl<T> BufferPool<T> {
    /// Handle and capacity of each free buffer, oldest release first.
    pub closed spec fn free_list(&self) -> Seq<(u64, usize)> {
        self.free@.map_values(|b: AudioBuffer<T>| entry_of(b))
    }

    /// Handles of the free buffers, oldest release first.
    pub open spec fn free_handles(&self) -> Seq<u64> {
        self.free_list().map_values(|e: (u64, usize)| e.0)
    }

    /// Number of device buffers created so far.
    pub closed spec fn created(&self) -> u64 {
        self.created
    }

    /// Handles currently owned by a playback.
    pub closed spec fn lent(&self) -> Set<u64> {
        self.lent@
    }

    proof fn lemma_views(&self)
        ensures
            self.free_list().len() == self.free@.len(),
            self.free_handles().len() == self.free@.len(),
            forall|i: int|
                0 <= i < self.free@.len() ==> #[trigger] self.free_handles()[i]
                    == self.free@[i].handle && self.free_list()[i] == entry_of(self.free@[i]),
    {
    }

    pub closed spec fn wf(&self) -> bool {
        &&& self.lent@.finite()
        &&& self.created as int == self.free@.len() + self.lent@.len()
        &&& forall|h: u64| #[trigger]
            self.lent@.contains(h) ==> h < self.created && !self.free_handles().contains(h)
        &&& forall|h: u64|
            h < self.created ==> #[trigger] self.lent@.contains(h)
                || self.free_handles().contains(h)
        &&& forall|i: int|
            0 <= i < self.free@.len() ==> (#[trigger] self.free@[i]).handle < self.created
        &&& forall|i: int, j: int|
            0 <= i < j < self.free@.len() ==> (#[trigger] self.free@[i]).handle
                != (#[trigger] self.free@[j]).handle
    }

    /// An empty pool that has created no buffer yet.
    pub fn new() -> (r: BufferPool<T>)
        ensures
            r.wf(),
            r.free_list() == Seq::<(u64, usize)>::empty(),
            r.created() == 0,
            r.lent() == Set::<u64>::empty(),
    {
        let r = BufferPool { free: Vec::new(), created: 0, lent: Ghost(Set::empty()) };
        assert(r.free_handles() =~= Seq::<u64>::empty());
        r
    }

    /// Number of device buffers created so far.
    pub fn created_count(&self) -> (r: u64)
        ensures
            r == self.created(),
    {
        self.created
    }

    /// Number of free buffers waiting in the pool.
    pub fn free_count(&self) -> (r: usize)
        ensures
            r == self.free_list().len(),
    {
        self.free.len()
    }

    /// Whether `handle` is in the free list.
    fn is_free(&self, handle: u64) -> (r: bool)
        ensures
            r == self.free_handles().contains(handle),
    {
        let mut i: usize = 0;
        while i < self.free.len()
            invariant
                i <= self.free@.len(),
                forall|j: int| 0 <= j < i ==> self.free_handles()[j] != handle,
            decreases self.free@.len() - i,
        {
            if self.free[i].handle == handle {
                assert(self.free_handles()[i as int] == handle);
                return true;
            }
            i = i + 1;
        }
        false
    }

    /// Index of the most recently released free buffer of `capacity` frames.
    fn last_fit(&self, capacity: usize) -> (r: Option<usize>)
        ensures
            r is None <==> !has_fit(self.free_list(), capacity),
            r matches Some(k) ==> is_last_fit(self.free_list(), capacity, k as int),
    {
        proof {
            self.lemma_views();
        }
        let mut i: usize = self.free.len();
        while i > 0
            invariant
                i <= self.free@.len(),
                self.free_list().len() == self.free@.len(),
                forall|j: int|
                    i <= j < self.free_list().len() ==> (#[trigger] self.free_list()[j]).1
                        != capacity,
            decreases i,
        {
            if self.free[i - 1].capacity == capacity {
                assert(self.free_list()[i - 1] == entry_of(self.free@[i - 1]));
                return Some(i - 1);
            }
            assert(self.free_list()[i - 1] == entry_of(self.free@[i - 1]));
            i = i - 1;
        }
        None
    }

    /// Takes a buffer of exactly `capacity` frames out of the pool: the one of
    /// that capacity released most recently, or a newly created one when the
    /// pool holds none.
    pub fn acquire(&mut self, capacity: usize) -> (r: AudioBuffer<T>)
        requires
            old(self).wf(),
            old(self).created() < u64::MAX,
        ensures
            final(self).wf(),
            acquired(*old(self), *final(self), capacity, r),
            !has_fit(old(self).free_list(), capacity) ==> r.data() == Seq::<T>::empty(),
    {
        proof {
            self.lemma_views();
        }
        let ghost old_list = self.free_list();
        let ghost old_handles = self.free_handles();
        let found = self.last_fit(capacity);
        if let Some(k) = found {
            {
                assert(old_list[k as int] == entry_of(self.free@[k as int]));
                let b = self.free.remove(k);
                let ghost h = b.handle;
                proof {
                    self.lemma_views();
                }
                assert(self.free_list() =~= old_list.remove(k as int));
                assert(self.free_handles() =~= old_handles.remove(k as int));
                assert(old_handles[k as int] == h);
                proof {
                    self.lent@ = self.lent@.insert(h);
                }
                assert forall|x: u64| #[trigger]
                    self.lent@.contains(x) implies x < self.created
                        && !self.free_handles().contains(x) by {
                    if x == h {
                        if self.free_handles().contains(x) {
                            let m = choose|m: int|
                                0 <= m < self.free_handles().len() && self.free_handles()[m]
                                    == x;
                            if m < k {
                                assert(old_handles[m] == x);
                            } else {
                                assert(old_handles[m + 1] == x);
                            }
                        }
                    } else {
                        assert(old(self).lent().contains(x));
                        if self.free_handles().contains(x) {
                            let m = choose|m: int|
                                0 <= m < self.free_handles().len() && self.free_handles()[m]
                                    == x;
                            if m < k {
                                assert(old_handles[m] == x);
                            } else {
                                assert(old_handles[m + 1] == x);
                            }
                        }
                    }
                }
                assert forall|x: u64| x < self.created implies #[trigger] self.lent@.contains(x)
                    || self.free_handles().contains(x) by {
                    if x != h && !old(self).lent().contains(x) {
                        let m = choose|m: int|
                            0 <= m < old_handles.len() && old_handles[m] == x;
                        if m < k {
                            assert(self.free_handles()[m] == x);
                        } else {
                            assert(m != k);
                            assert(self.free_handles()[m - 1] == x);
                        }
                    }
                }
                assert(!old(self).lent().contains(h));
                assert(is_last_fit(old_list, capacity, k as int));
                return b;
            }
        }
        let h: u64 = self.created;
        proof {
            if all_of_capacity(old_list, capacity) && old_list.len() > 0 {
                assert(old_list[0].1 == capacity);
            }
            assert(!self.lent@.contains(h));
            self.lent@ = self.lent@.insert(h);
            if old_handles.contains(h) {
                let m = choose|m: int| 0 <= m < old_handles.len() && old_handles[m] == h;
                assert(self.free@[m].handle < self.created);
            }
        }
        self.created = self.created + 1;
        AudioBuffer { handle: h, capacity, samples: Vec::new() }
    }

    /// Hands a buffer back once its playback has finished.
    ///
    /// A buffer whose handle this pool never created, or one that is already
    /// free, is turned away and the pool is left as it was.
    pub fn release(&mut self, buffer: AudioBuffer<T>) -> (r: Result<(), PoolError>)
        requires
            old(self).wf(),
        ensures
            final(self).wf(),
            final(self).created() == old(self).created(),
            r == Err::<(), PoolError>(PoolError::ForeignBuffer) <==> buffer.id()
                >= old(self).created(),
            r == Err::<(), PoolError>(PoolError::DoubleRelease) <==> old(self).free_handles().contains(
                buffer.id(),
            ),
            r is Ok <==> buffer.id() < old(self).created() && !old(self).free_handles().contains(
                buffer.id(),
            ),
            r is Ok ==> returned(*old(self), *final(self), buffer),
            r is Err ==> {
                &&& final(self).free_list() == old(self).free_list()
                &&& final(self).lent() == old(self).lent()
            },
    {
        let h: u64 = buffer.handle;
        proof {
            self.lemma_views();
        }
        if h >= self.created {
            proof {
                if old(self).free_handles().contains(h) {
                    let m = choose|m: int|
                        0 <= m < self.free_handles().len() && self.free_handles()[m] == h;
                    assert(self.free@[m].handle < self.created);
                }
            }
            return Err(PoolError::ForeignBuffer);
        }
        if self.is_free(h) {
            return Err(PoolError::DoubleRelease);
        }
        proof {
            self.lemma_views();
        }
        let ghost old_list = self.free_list();
        let ghost old_handles = self.free_handles();
        assert(self.lent@.contains(h));
        self.free.push(buffer);
        proof {
            self.lemma_views();
        }
        proof {
            self.lent@ = self.lent@.remove(h);
        }
        assert(self.free_list() =~= old_list.push(entry_of(buffer)));
        assert(self.free_handles() =~= old_handles.push(h));
        assert forall|x: u64| #[trigger]
            self.lent@.contains(x) implies x < self.created && !self.free_handles().contains(
                x,
            ) by {
            assert(old(self).lent().contains(x));
            if self.free_handles().contains(x) {
                let m = choose|m: int|
                    0 <= m < self.free_handles().len() && self.free_handles()[m] == x;
                if m < old_handles.len() {
                    assert(old_handles[m] == x);
                }
            }
        }
        assert forall|x: u64| x < self.created implies #[trigger] self.lent@.contains(x)
            || self.free_handles().contains(x) by {
            if x == h {
                assert(self.free_handles()[old_handles.len() as int] == h);
            } else if !old(self).lent().contains(x) {
                let m = choose|m: int| 0 <= m < old_handles.len() && old_handles[m] == x;
                assert(self.free_handles()[m] == x);
            }
        }
        assert forall|i: int, j: int|
            0 <= i < j < self.free@.len() implies (#[trigger] self.free@[i]).handle
                != (#[trigger] self.free@[j]).handle by {
            if j == old_list.len() {
                assert(old_handles[i] == self.free@[i].handle);
            }
        }
        Ok(())
    }
}

} // verus!
