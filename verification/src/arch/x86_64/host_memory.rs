//! Host memory accounting for AI tensors on x86_64: allocations come from
//! the ordinary heap, and the allocator tracks live and peak byte counts.

use vstd::prelude::*;

verus! {

/// Memory allocator for AI tensors.
pub struct X86MemoryAllocator {
    allocated_bytes: u64,
    peak_allocation: u64,
}

/// Tensor buffer: `size_bytes` bytes of heap storage, zeroed at allocation.
pub struct TensorBuffer {
    data: Vec<u8>,
    size_bytes: usize,
}

impl X86MemoryAllocator {
    pub closed spec fn allocated(&self) -> u64 {
        self.allocated_bytes
    }

    pub closed spec fn peak(&self) -> u64 {
        self.peak_allocation
    }

    /// An allocator with nothing allocated.
    pub fn new() -> (r: Self)
        ensures
            r.allocated() == 0,
            r.peak() == 0,
    {
        X86MemoryAllocator { allocated_bytes: 0, peak_allocation: 0 }
    }

    /// Reserves a buffer of `size_bytes`; zero bytes are refused. The live
    /// count grows by the size (modulo 2^64) and the peak follows it.
    pub fn allocate_tensor(&mut self, size_bytes: usize) -> (res: Result<TensorBuffer, &'static str>)
        ensures
            size_bytes == 0 <==> res is Err,
            size_bytes == 0 ==> res == Err::<TensorBuffer, &'static str>("Cannot allocate zero-sized tensor")
                && final(self).allocated() == old(self).allocated() && final(self).peak() == old(self).peak(),
            size_bytes != 0 ==> final(self).allocated() == old(self).allocated().wrapping_add(size_bytes as u64)
                && final(self).peak() == (if final(self).allocated() > old(self).peak() {
                final(self).allocated()
            } else {
                old(self).peak()
            }) && res->Ok_0.wf() && res->Ok_0.size_spec() == size_bytes && res->Ok_0.data_view() == Seq::new(
                size_bytes as nat,
                |_i: int| 0u8,
            ),
    {
        if size_bytes == 0 {
            return Err("Cannot allocate zero-sized tensor");
        }
        let mut buffer: Vec<u8> = Vec::with_capacity(size_bytes);
        let mut i: usize = 0;
        while i < size_bytes
            invariant
                i <= size_bytes,
                buffer@ == Seq::new(i as nat, |_k: int| 0u8),
            decreases size_bytes - i,
        {
            buffer.push(0u8);
            i = i + 1;
            proof {
                assert(buffer@ =~= Seq::new(i as nat, |_k: int| 0u8));
            }
        }
        let new_allocated = self.allocated_bytes.wrapping_add(size_bytes as u64);
        self.allocated_bytes = new_allocated;
        if new_allocated > self.peak_allocation {
            self.peak_allocation = new_allocated;
        }
        Ok(TensorBuffer { data: buffer, size_bytes })
    }

    /// Releases `buffer`; the live count drops by its size (modulo 2^64).
    pub fn free_tensor(&mut self, buffer: TensorBuffer)
        ensures
            final(self).allocated() == old(self).allocated().wrapping_sub(buffer.size_spec() as u64),
            final(self).peak() == old(self).peak(),
    {
        let size = buffer.size_bytes;
        self.allocated_bytes = self.allocated_bytes.wrapping_sub(size as u64);
    }
}

/// Allocating a buffer and freeing it leaves the live byte count unchanged.
pub proof fn lemma_allocate_free_balance(live: u64, size: u64)
    ensures
        live.wrapping_add(size).wrapping_sub(size) == live,
{
    assert(live.wrapping_add(size).wrapping_sub(size) == live) by (bit_vector);
}

impl TensorBuffer {
    /// The buffer holds exactly its size in bytes.
    pub closed spec fn wf(&self) -> bool {
        self.data@.len() == self.size_bytes
    }

    pub closed spec fn size_spec(&self) -> usize {
        self.size_bytes
    }

    pub closed spec fn data_view(&self) -> Seq<u8> {
        self.data@
    }

    /// The buffer's bytes, writable.
    pub fn as_mut_slice(&mut self) -> (r: &mut [u8])
        requires
            old(self).wf(),
        ensures
            r@ == old(self).data_view(),
            r@.len() == old(self).size_spec(),
            final(self).data_view() == final(r)@,
            final(self).size_spec() == old(self).size_spec(),
    {
        self.data.as_mut_slice()
    }

    /// The buffer's bytes.
    pub fn as_slice(&self) -> (r: &[u8])
        requires
            self.wf(),
        ensures
            r@ == self.data_view(),
            r@.len() == self.size_spec(),
    {
        self.data.as_slice()
    }

    /// Size the buffer was reserved for.
    pub fn size(&self) -> (r: usize)
        ensures
            r == self.size_spec(),
    {
        self.size_bytes
    }
}

/// Neural Engine data types.
#[derive(Clone, Copy, PartialEq, Eq, Debug)]
pub enum NEDataType {
    FP16,
    FP32,
    INT8,
    INT16,
}

/// Neural Engine tensor layouts.
#[derive(Clone, Copy, PartialEq, Eq, Debug)]
pub enum NELayout {
    Linear,
    NHWC,
    NCHW,
}

/// Neural memory needs no set-up with the ordinary heap.
pub fn init_neural_memory() -> (r: Result<(), &'static str>)
    ensures
        r == Ok::<(), &'static str>(()),
{
    Ok(())
}

/// Initializes x86_64 memory management.
pub fn init() -> (r: Result<(), &'static str>)
    ensures
        r == Ok::<(), &'static str>(()),
{
    init_neural_memory()
}

} // verus!
