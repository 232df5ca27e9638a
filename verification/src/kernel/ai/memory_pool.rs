//! Size-classed buffer pools for AI workloads: buffers are handed out from
//! a per-class free list or freshly zeroed, and come back to the free list
//! while it has room.

use vstd::prelude::*;

verus! {

/// Buffer size of the small class (4 KiB).
pub const POOL_SIZE_SMALL: usize = 4096;
/// Buffer size of the medium class (64 KiB).
pub const POOL_SIZE_MEDIUM: usize = 65536;
/// Buffer size of the large class (1 MiB).
pub const POOL_SIZE_LARGE: usize = 1048576;
/// Buffer size of the huge class (16 MiB).
pub const POOL_SIZE_HUGE: usize = 16777216;
/// Free buffers a pool keeps at most.
pub const MAX_POOLS_PER_SIZE: usize = 64;
/// Alignment of buffers handed to DMA and SIMD code.
pub const ALIGNMENT_REQUIREMENT: usize = 64;

/// Memory pool size classes.
#[derive(Clone, Copy, PartialEq, Eq, Structural, Debug)]
pub enum PoolSizeClass {
    Small,
    Medium,
    Large,
    Huge,
}

/// Buffer size of a class.
pub open spec fn class_size(c: PoolSizeClass) -> usize {
    match c {
        PoolSizeClass::Small => POOL_SIZE_SMALL,
        PoolSizeClass::Medium => POOL_SIZE_MEDIUM,
        PoolSizeClass::Large => POOL_SIZE_LARGE,
        PoolSizeClass::Huge => POOL_SIZE_HUGE,
    }
}

/// Smallest class whose buffers hold `size` bytes (huge for anything larger).
pub open spec fn class_for(size: usize) -> PoolSizeClass {
    if size <= POOL_SIZE_SMALL {
        PoolSizeClass::Small
    } else if size <= POOL_SIZE_MEDIUM {
        PoolSizeClass::Medium
    } else if size <= POOL_SIZE_LARGE {
        PoolSizeClass::Large
    } else {
        PoolSizeClass::Huge
    }
}

/// Index of the pool that serves a class.
pub open spec fn class_index(c: PoolSizeClass) -> int {
    match c {
        PoolSizeClass::Small => 0,
        PoolSizeClass::Medium => 1,
        PoolSizeClass::Large => 2,
        PoolSizeClass::Huge => 3,
    }
}

impl PoolSizeClass {
    /// Buffer size for this size class.
    pub fn buffer_size(&self) -> (r: usize)
        ensures
            r == class_size(*self),
    {
        match self {
            PoolSizeClass::Small => POOL_SIZE_SMALL,
            PoolSizeClass::Medium => POOL_SIZE_MEDIUM,
            PoolSizeClass::Large => POOL_SIZE_LARGE,
            PoolSizeClass::Huge => POOL_SIZE_HUGE,
        }
    }

    /// Size class for a requested size.
    pub fn from_size(size: usize) -> (r: Self)
        ensures
            r == class_for(size),
            size <= 16777216 ==> size <= class_size(r),
            r == PoolSizeClass::Medium ==> size > 4096,
            r == PoolSizeClass::Large ==> size > 65536,
            r == PoolSizeClass::Huge ==> size > 1048576,
    {
        if size <= POOL_SIZE_SMALL {
            PoolSizeClass::Small
        } else if size <= POOL_SIZE_MEDIUM {
            PoolSizeClass::Medium
        } else if size <= POOL_SIZE_LARGE {
            PoolSizeClass::Large
        } else {
            PoolSizeClass::Huge
        }
    }

    fn index(&self) -> (r: usize)
        ensures
            r == class_index(*self),
    {
        match self {
            PoolSizeClass::Small => 0,
            PoolSizeClass::Medium => 1,
            PoolSizeClass::Large => 2,
            PoolSizeClass::Huge => 3,
        }
    }
}

/// A request goes to the smallest class whose buffers hold it: up to
/// 16 MiB the buffer holds the request, and a request of a class above the
/// smallest would not fit the buffers of the class just below.
pub proof fn lemma_class_is_smallest_fit(size: usize)
    ensures
        size <= 16777216 ==> size <= class_size(class_for(size)),
        class_for(size) == PoolSizeClass::Medium ==> size > 4096,
        class_for(size) == PoolSizeClass::Large ==> size > 65536,
        class_for(size) == PoolSizeClass::Huge ==> size > 1048576,
        class_for(size) == PoolSizeClass::Small ==> class_size(class_for(size)) == 4096,
        class_for(size) == PoolSizeClass::Medium ==> class_size(class_for(size)) == 65536,
        class_for(size) == PoolSizeClass::Large ==> class_size(class_for(size)) == 1048576,
        class_for(size) == PoolSizeClass::Huge ==> class_size(class_for(size)) == 16777216,
{
}

proof fn lemma_class_fits(size: usize)
    ensures
        size <= POOL_SIZE_HUGE ==> size <= class_size(class_for(size)),
        class_for(size) == PoolSizeClass::Small ==> size <= class_size(class_for(size)),
{
}

/// A zeroed AI buffer with its size class and reference count.
#[derive(Debug)]
pub struct AIBuffer {
    data: Vec<u8>,
    size: usize,
    size_class: PoolSizeClass,
    ref_count: u32,
    alloc_time_us: u64,
}

impl AIBuffer {
    pub closed spec fn bytes(&self) -> Seq<u8> {
        self.data@
    }

    pub closed spec fn spec_size(&self) -> usize {
        self.size
    }

    pub closed spec fn class(&self) -> PoolSizeClass {
        self.size_class
    }

    pub closed spec fn refs(&self) -> u32 {
        self.ref_count
    }

    pub closed spec fn allocated_at(&self) -> u64 {
        self.alloc_time_us
    }

    /// The buffer holds exactly its class's size.
    pub open spec fn wf(&self) -> bool {
        &&& self.bytes().len() == self.spec_size()
        &&& self.spec_size() == class_size(self.class())
    }

    /// A zeroed buffer of class `size_class` with one reference.
    fn new(size_class: PoolSizeClass) -> (r: Self)
        ensures
            r.wf(),
            r.class() == size_class,
            r.refs() == 1,
            r.allocated_at() == 0,
            forall|i: int| 0 <= i < r.bytes().len() ==> #[trigger] r.bytes()[i] == 0,
    {
        let size = size_class.buffer_size();
        let data: Vec<u8> = vec![0u8; size];
        AIBuffer { data, size, size_class, ref_count: 1, alloc_time_us: 0 }
    }

    /// The buffer's bytes.
    pub fn as_ptr(&self) -> (r: &[u8])
        ensures
            r@ == self.bytes(),
    {
        self.data.as_slice()
    }

    /// The buffer's bytes, writable.
    pub fn as_mut_ptr(&mut self) -> (r: &mut [u8])
        ensures
            r@ == old(self).bytes(),
            final(r)@.len() == old(self).bytes().len() ==> final(self).wf() == old(self).wf(),
            final(self).bytes() == final(r)@,
            final(self).spec_size() == old(self).spec_size(),
            final(self).class() == old(self).class(),
            final(self).refs() == old(self).refs(),
            final(self).allocated_at() == old(self).allocated_at(),
    {
        self.data.as_mut_slice()
    }

    /// Buffer size in bytes.
    pub fn size(&self) -> (r: usize)
        ensures
            r == self.spec_size(),
    {
        self.size
    }

    /// Size class.
    pub fn size_class(&self) -> (r: PoolSizeClass)
        ensures
            r == self.class(),
    {
        self.size_class
    }

    /// Adds a reference; returns the count before.
    pub fn add_ref(&mut self) -> (r: u32)
        ensures
            r == old(self).refs(),
            final(self).refs() == old(self).refs().wrapping_add(1),
            final(self).bytes() == old(self).bytes(),
            final(self).spec_size() == old(self).spec_size(),
            final(self).class() == old(self).class(),
            final(self).allocated_at() == old(self).allocated_at(),
    {
        let before = self.ref_count;
        self.ref_count = self.ref_count.wrapping_add(1);
        before
    }

    /// Drops a reference; returns the new count.
    pub fn release(&mut self) -> (r: u32)
        ensures
            r == final(self).refs(),
            final(self).refs() == old(self).refs().wrapping_sub(1),
            final(self).bytes() == old(self).bytes(),
            final(self).spec_size() == old(self).spec_size(),
            final(self).class() == old(self).class(),
            final(self).allocated_at() == old(self).allocated_at(),
    {
        self.ref_count = self.ref_count.wrapping_sub(1);
        self.ref_count
    }

    /// Current reference count.
    pub fn ref_count(&self) -> (r: u32)
        ensures
            r == self.refs(),
    {
        self.ref_count
    }
}

/// Pool statistics.
#[derive(Clone, Copy, Debug)]
pub struct PoolStats {
    pub size_class: PoolSizeClass,
    pub available_count: usize,
    pub total_created: u64,
    pub total_allocated: u64,
    pub peak_allocated: u64,
}

/// Free list and counters of one size class.
pub struct MemoryPool {
    available_buffers: Vec<AIBuffer>,
    size_class: PoolSizeClass,
    total_created: u64,
    total_allocated: u64,
    peak_allocated: u64,
}

impl MemoryPool {
    pub closed spec fn free(&self) -> Seq<AIBuffer> {
        self.available_buffers@
    }

    pub closed spec fn class(&self) -> PoolSizeClass {
        self.size_class
    }

    /// `(created, allocated, peak)` counters.
    pub closed spec fn counters(&self) -> (u64, u64, u64) {
        (self.total_created, self.total_allocated, self.peak_allocated)
    }

    /// Free buffers are well formed, of this pool's class and at most the
    /// pool's capacity.
    pub open spec fn wf(&self) -> bool {
        &&& self.free().len() <= MAX_POOLS_PER_SIZE
        &&& forall|i: int|
            0 <= i < self.free().len() ==> (#[trigger] self.free()[i]).wf() && self.free()[i].class()
                == self.class()
    }

    fn new(size_class: PoolSizeClass) -> (r: Self)
        ensures
            r.wf(),
            r.class() == size_class,
            r.free().len() == 0,
            r.counters() == (0u64, 0u64, 0u64),
    {
        MemoryPool {
            available_buffers: Vec::new(),
            size_class,
            total_created: 0,
            total_allocated: 0,
            peak_allocated: 0,
        }
    }

    /// Hands out the most recently freed buffer, or a new zeroed one when
    /// the free list is empty. Only a new buffer can raise the peak.
    fn allocate(&mut self) -> (r: AIBuffer)
        requires
            old(self).wf(),
            old(self).counters().1 < u64::MAX,
        ensures
            final(self).wf(),
            final(self).class() == old(self).class(),
            r.wf(),
            r.class() == old(self).class(),
            r.allocated_at() == old(self).counters().1,
            old(self).free().len() > 0 ==> {
                &&& final(self).free() == old(self).free().drop_last()
                &&& r.bytes() == old(self).free().last().bytes()
                &&& r.refs() == old(self).free().last().refs()
                &&& final(self).counters() == (
                    old(self).counters().0,
                    (old(self).counters().1 + 1) as u64,
                    old(self).counters().2,
                )
            },
            old(self).free().len() == 0 ==> {
                &&& final(self).free() == old(self).free()
                &&& r.refs() == 1
                &&& forall|i: int| 0 <= i < r.bytes().len() ==> #[trigger] r.bytes()[i] == 0
                &&& final(self).counters() == (
                    old(self).counters().0.wrapping_add(1),
                    (old(self).counters().1 + 1) as u64,
                    if old(self).counters().2 >= old(self).counters().1 + 1 {
                        old(self).counters().2
                    } else {
                        (old(self).counters().1 + 1) as u64
                    },
                )
            },
    {
        let now = self.total_allocated;
        if self.available_buffers.len() > 0 {
            let ghost pre = self.available_buffers@;
            let mut buffer = self.available_buffers.pop().unwrap();
            proof {
                assert(pre[pre.len() - 1].wf());
            }
            buffer.alloc_time_us = now;
            self.total_allocated = self.total_allocated + 1;
            return buffer;
        }
        let mut buffer = AIBuffer::new(self.size_class);
        buffer.alloc_time_us = now;
        self.total_created = self.total_created.wrapping_add(1);
        let allocated = self.total_allocated + 1;
        self.total_allocated = allocated;
        if allocated > self.peak_allocated {
            self.peak_allocated = allocated;
        }
        buffer
    }

    /// Takes a buffer back. A buffer of another class, or one still shared,
    /// is refused; an accepted buffer joins the free list while it has
    /// room, and is dropped otherwise.
    fn deallocate(&mut self, buffer: AIBuffer) -> (r: Result<(), &'static str>)
        requires
            old(self).wf(),
            buffer.wf(),
        ensures
            final(self).wf(),
            final(self).class() == old(self).class(),
            r is Err <==> (buffer.class() != old(self).class() || buffer.refs() > 1),
            r is Err ==> final(self).free() == old(self).free() && final(self).counters() == old(self).counters(),
            r is Ok ==> final(self).counters() == (
                old(self).counters().0,
                old(self).counters().1.wrapping_sub(1),
                old(self).counters().2,
            ),
            r is Ok && old(self).free().len() < MAX_POOLS_PER_SIZE ==> final(self).free() == old(self).free().push(buffer),
            r is Ok && old(self).free().len() >= MAX_POOLS_PER_SIZE ==> final(self).free() == old(self).free(),
    {
        if buffer.size_class != self.size_class {
            return Err("Buffer size class mismatch");
        }
        if buffer.ref_count > 1 {
            return Err("Buffer still has active references");
        }
        if self.available_buffers.len() < MAX_POOLS_PER_SIZE {
            self.available_buffers.push(buffer);
            self.total_allocated = self.total_allocated.wrapping_sub(1);
            return Ok(());
        }
        self.total_allocated = self.total_allocated.wrapping_sub(1);
        Ok(())
    }

    fn get_stats(&self) -> (r: PoolStats)
        ensures
            r.size_class == self.class(),
            r.available_count == self.free().len(),
            (r.total_created, r.total_allocated, r.peak_allocated) == self.counters(),
    {
        PoolStats {
            size_class: self.size_class,
            available_count: self.available_buffers.len(),
            total_created: self.total_created,
            total_allocated: self.total_allocated,
            peak_allocated: self.peak_allocated,
        }
    }
}

/// Memory manager statistics.
#[derive(Debug)]
pub struct MemoryManagerStats {
    pub total_memory_usage: u64,
    pub memory_pressure_threshold: u64,
    pub is_pressure: bool,
    pub pool_stats: [PoolStats; 4],
}

/// One pool per size class and the bytes handed out over all of them.
pub struct AIMemoryManager {
    pools: Vec<MemoryPool>,
    total_memory_usage: u64,
    memory_pressure_threshold: u64,
}

impl AIMemoryManager {
    pub closed spec fn pool(&self, i: int) -> MemoryPool {
        self.pools@[i]
    }

    pub closed spec fn usage(&self) -> u64 {
        self.total_memory_usage
    }

    pub closed spec fn pressure_threshold(&self) -> u64 {
        self.memory_pressure_threshold
    }

    pub closed spec fn wf(&self) -> bool {
        &&& self.pools@.len() == 4
        &&& forall|i: int| 0 <= i < 4 ==> (#[trigger] self.pools@[i]).wf()
        &&& self.pools@[0].class() == PoolSizeClass::Small
        &&& self.pools@[1].class() == PoolSizeClass::Medium
        &&& self.pools@[2].class() == PoolSizeClass::Large
        &&& self.pools@[3].class() == PoolSizeClass::Huge
    }

    /// Empty pools, no usage, a 1 GiB pressure threshold.
    pub fn new() -> (r: Self)
        ensures
            r.wf(),
            r.usage() == 0,
            r.pressure_threshold() == 1024 * 1024 * 1024,
            forall|i: int| 0 <= i < 4 ==> (#[trigger] r.pool(i)).free().len() == 0 && r.pool(i).counters() == (0u64, 0u64, 0u64),
    {
        let mut pools: Vec<MemoryPool> = Vec::new();
        pools.push(MemoryPool::new(PoolSizeClass::Small));
        pools.push(MemoryPool::new(PoolSizeClass::Medium));
        pools.push(MemoryPool::new(PoolSizeClass::Large));
        pools.push(MemoryPool::new(PoolSizeClass::Huge));
        AIMemoryManager {
            pools,
            total_memory_usage: 0,
            memory_pressure_threshold: 1024 * 1024 * 1024,
        }
    }

    /// A buffer of the requested size, of the class that `size` falls in;
    /// the usage grows by the class's buffer size. A request larger than
    /// the largest class is refused and changes nothing.
    pub fn allocate(&mut self, size: usize) -> (r: Result<AIBuffer, &'static str>)
        requires
            old(self).wf(),
            old(self).pool(class_index(class_for(size))).counters().1 < u64::MAX,
        ensures
            final(self).wf(),
            size > POOL_SIZE_HUGE ==> r == Err::<AIBuffer, &'static str>("Requested size exceeds largest buffer class")
                && *final(self) == *old(self),
            size <= POOL_SIZE_HUGE ==> (r matches Ok(b) && b.wf() && b.class() == class_for(size) && size
                <= b.spec_size()),
            size <= POOL_SIZE_HUGE ==> final(self).usage() == old(self).usage().wrapping_add(
                class_size(class_for(size)) as u64,
            ),
            size <= POOL_SIZE_HUGE ==> forall|i: int|
                0 <= i < 4 && i != class_index(class_for(size)) ==> #[trigger] final(self).pool(i)
                    == old(self).pool(i),
            final(self).pressure_threshold() == old(self).pressure_threshold(),
    {
        if size > POOL_SIZE_HUGE {
            return Err("Requested size exceeds largest buffer class");
        }
        let size_class = PoolSizeClass::from_size(size);
        let idx = size_class.index();
        let ghost pools = self.pools@;
        let mut pool = self.pools.remove(idx);
        let buffer = pool.allocate();
        self.pools.insert(idx, pool);
        proof {
            lemma_class_fits(size);
            assert forall|i: int| 0 <= i < 4 implies (#[trigger] self.pools@[i]).wf() by {
                if i != idx {
                    assert(self.pools@[i] == pools[i]);
                }
            }
            assert forall|i: int| 0 <= i < 4 && i != idx implies #[trigger] self.pools@[i] == pools[i] by {
            }
        }
        self.total_memory_usage = self.total_memory_usage.wrapping_add(size_class.buffer_size() as u64);
        Ok(buffer)
    }

    /// Gives a buffer back to its class's pool; the usage shrinks by the
    /// class's buffer size whether or not the pool accepts it.
    pub fn deallocate(&mut self, buffer: AIBuffer) -> (r: Result<(), &'static str>)
        requires
            old(self).wf(),
            buffer.wf(),
        ensures
            final(self).wf(),
            r is Err <==> buffer.refs() > 1,
            final(self).usage() == old(self).usage().wrapping_sub(class_size(buffer.class()) as u64),
            final(self).pressure_threshold() == old(self).pressure_threshold(),
            forall|i: int|
                0 <= i < 4 && i != class_index(buffer.class()) ==> #[trigger] final(self).pool(i) == old(self).pool(i),
            r is Ok && old(self).pool(class_index(buffer.class())).free().len() < MAX_POOLS_PER_SIZE
                ==> final(self).pool(class_index(buffer.class())).free() == old(self).pool(
                class_index(buffer.class()),
            ).free().push(buffer),
    {
        let size_class = buffer.size_class();
        let idx = size_class.index();
        self.total_memory_usage = self.total_memory_usage.wrapping_sub(size_class.buffer_size() as u64);
        let ghost pools = self.pools@;
        let mut pool = self.pools.remove(idx);
        let r = pool.deallocate(buffer);
        self.pools.insert(idx, pool);
        proof {
            assert forall|i: int| 0 <= i < 4 implies (#[trigger] self.pools@[i]).wf() by {
                if i != idx {
                    assert(self.pools@[i] == pools[i]);
                }
            }
            assert forall|i: int| 0 <= i < 4 && i != idx implies #[trigger] self.pools@[i] == pools[i] by {
            }
        }
        r
    }

    /// Usage is above the pressure threshold.
    pub fn is_memory_pressure(&self) -> (r: bool)
        ensures
            r == (self.usage() > self.pressure_threshold()),
    {
        self.total_memory_usage > self.memory_pressure_threshold
    }

    /// Usage, threshold and per-class pool statistics.
    pub fn get_stats(&self) -> (r: MemoryManagerStats)
        requires
            self.wf(),
        ensures
            r.total_memory_usage == self.usage(),
            r.memory_pressure_threshold == self.pressure_threshold(),
            r.is_pressure == (self.usage() > self.pressure_threshold()),
            forall|i: int|
                0 <= i < 4 ==> (#[trigger] r.pool_stats@[i]).available_count == self.pool(i).free().len()
                    && r.pool_stats@[i].size_class == self.pool(i).class(),
    {
        let s0 = self.pools[0].get_stats();
        let s1 = self.pools[1].get_stats();
        let s2 = self.pools[2].get_stats();
        let s3 = self.pools[3].get_stats();
        MemoryManagerStats {
            total_memory_usage: self.total_memory_usage,
            memory_pressure_threshold: self.memory_pressure_threshold,
            is_pressure: self.is_memory_pressure(),
            pool_stats: [s0, s1, s2, s3],
        }
    }
}

/// Sets up the global manager unless it exists.
pub fn init(manager: &mut Option<AIMemoryManager>) -> (r: Result<(), &'static str>)
    ensures
        r is Ok,
        *final(manager) is Some,
        *old(manager) is None ==> (*final(manager) matches Some(m) && m.wf() && m.usage() == 0),
{
    if manager.is_none() {
        *manager = Some(AIMemoryManager::new());
    }
    Ok(())
}

/// Allocates from the global manager; fails when it is not set up.
pub fn allocate_ai_buffer(manager: &mut Option<AIMemoryManager>, size: usize) -> (r: Result<
    AIBuffer,
    &'static str,
>)
    requires
        *old(manager) matches Some(m) ==> m.wf() && m.pool(class_index(class_for(size))).counters().1
            < u64::MAX,
    ensures
        *old(manager) is None ==> r == Err::<AIBuffer, &'static str>("AI memory manager not initialized"),
        *old(manager) is Some && size > POOL_SIZE_HUGE ==> r == Err::<AIBuffer, &'static str>(
            "Requested size exceeds largest buffer class",
        ) && *final(manager) == *old(manager),
        *old(manager) is Some && size <= POOL_SIZE_HUGE ==> (r matches Ok(b) && b.class() == class_for(size)
            && b.wf() && size <= b.spec_size()),
        *old(manager) is None ==> *final(manager) is None,
        size <= POOL_SIZE_HUGE ==> (*old(manager) matches Some(m) ==> (*final(manager) matches Some(m2) && m2.wf()
            && m2.usage() == m.usage().wrapping_add(class_size(class_for(size)) as u64))),
        *old(manager) matches Some(m) ==> (*final(manager) matches Some(m2) && m2.wf()),
{
    match manager {
        Some(m) => m.allocate(size),
        None => Err("AI memory manager not initialized"),
    }
}

/// Returns a buffer to the global manager; fails when it is not set up.
pub fn deallocate_ai_buffer(manager: &mut Option<AIMemoryManager>, buffer: AIBuffer) -> (r: Result<
    (),
    &'static str,
>)
    requires
        *old(manager) matches Some(m) ==> m.wf(),
        buffer.wf(),
    ensures
        *old(manager) is None ==> r is Err && *final(manager) is None,
        *old(manager) matches Some(m) ==> (r is Err <==> buffer.refs() > 1) && (*final(manager) matches Some(m2)
            && m2.wf() && m2.usage() == m.usage().wrapping_sub(class_size(buffer.class()) as u64)),
{
    match manager {
        Some(m) => m.deallocate(buffer),
        None => Err("AI memory manager not initialized"),
    }
}

/// Whether the global manager is under memory pressure.
pub fn is_memory_pressure(manager: &Option<AIMemoryManager>) -> (r: Result<bool, &'static str>)
    ensures
        manager is None <==> r is Err,
        manager matches Some(m) ==> r == Ok::<bool, &'static str>(m.usage() > m.pressure_threshold()),
{
    match manager {
        Some(m) => Ok(m.is_memory_pressure()),
        None => Err("AI memory manager not initialized"),
    }
}

/// Statistics of the global manager.
pub fn get_memory_stats(manager: &Option<AIMemoryManager>) -> (r: Result<MemoryManagerStats, &'static str>)
    requires
        manager matches Some(m) ==> m.wf(),
    ensures
        manager is None <==> r is Err,
        manager matches Some(m) ==> (r matches Ok(s) && s.total_memory_usage == m.usage()
            && s.is_pressure == (m.usage() > m.pressure_threshold())),
{
    match manager {
        Some(m) => Ok(m.get_stats()),
        None => Err("AI memory manager not initialized"),
    }
}

} // verus!
