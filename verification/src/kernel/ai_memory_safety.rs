//! Linear ownership of tensor memory: ownership tokens over address ranges
//! that can be split but not copied, tensor shapes, buffers that own their
//! elements, and the DMA-side bookkeeping (bounds canaries, unified virtual
//! memory pages, transfer records, first-fit tensor blocks).

use vstd::prelude::*;
use core::ops::Range;
use core::marker::PhantomData;

verus! {

/// How the ownership of a token was established.
#[derive(Clone, Copy, Debug)]
pub enum VerificationState {
    VerusVerified { proof_hash: [u8; 32] },
    RuntimeVerified,
    Unverified,
}

/// Lifetime bound of tensor memory.
#[derive(Clone, Copy, PartialEq, Eq, Structural, Debug)]
pub enum LifetimeBound {
    InferenceSession(u64),
    TrainingBatch(u64),
    Static,
    Scoped { start: u64, duration: u64 },
}

/// Memory safety errors.
#[derive(Clone, Copy, PartialEq, Eq, Structural, Debug)]
pub enum TensorError {
    IndexOutOfBounds,
    InvalidSplit,
    OwnershipViolation,
    MemoryNotAccessible,
    VerificationFailed,
}

/// DMA errors.
#[derive(Clone, Copy, PartialEq, Eq, Structural, Debug)]
pub enum DmaError {
    BufferOverflow,
    WxViolation,
    PageNotMapped,
    InvalidTransferId,
    HardwareError,
    PermissionDenied,
}

/// Linear ownership token for a physical address range. It is not `Clone`:
/// moving it is the only way to pass the ownership on.
#[derive(Debug)]
pub struct OwnershipToken {
    token_id: u64,
    owned_range: Range<u64>,
    verification_state: VerificationState,
    lifetime_bound: LifetimeBound,
}

/// A token is valid unless its ownership is unverified.
pub open spec fn state_valid(s: VerificationState) -> bool {
    !(s is Unverified)
}

impl OwnershipToken {
    pub closed spec fn id(&self) -> u64 {
        self.token_id
    }

    pub closed spec fn start(&self) -> u64 {
        self.owned_range.start
    }

    pub closed spec fn end(&self) -> u64 {
        self.owned_range.end
    }

    pub closed spec fn state(&self) -> VerificationState {
        self.verification_state
    }

    pub closed spec fn lifetime(&self) -> LifetimeBound {
        self.lifetime_bound
    }

    /// A runtime-verified token for `range`, numbered from `next_id`, which
    /// then moves on.
    pub fn new(next_id: &mut u64, range: Range<u64>, lifetime: LifetimeBound) -> (r: Self)
        requires
            *old(next_id) < u64::MAX,
        ensures
            r.id() == *old(next_id),
            *final(next_id) == *old(next_id) + 1,
            r.start() == range.start,
            r.end() == range.end,
            r.state() is RuntimeVerified,
            r.lifetime() == lifetime,
    {
        let token_id = *next_id;
        *next_id = token_id + 1;
        OwnershipToken {
            token_id,
            owned_range: range,
            verification_state: VerificationState::RuntimeVerified,
            lifetime_bound: lifetime,
        }
    }

    /// Whether the ownership holds: verified or runtime-checked tokens are
    /// valid, unverified ones are not.
    pub fn is_valid(&self) -> (r: bool)
        ensures
            r == state_valid(self.state()),
    {
        match &self.verification_state {
            VerificationState::VerusVerified { .. } => true,
            VerificationState::RuntimeVerified => self.runtime_validity_check(),
            VerificationState::Unverified => false,
        }
    }

    /// Hands the ownership on; the token is consumed.
    pub fn transfer(self) -> (r: Self)
        ensures
            r == self,
    {
        self
    }

    /// Splits the range at `split_point`, strictly inside it: the left part
    /// keeps the identifier, the right part gets it plus a million.
    pub fn split_at(self, split_point: u64) -> (r: Result<(Self, Self), TensorError>)
        requires
            split_point <= self.start() || split_point >= self.end() || self.id() + 1_000_000
                <= u64::MAX,
        ensures
            r is Err <==> (split_point <= self.start() || split_point >= self.end()),
            r is Err ==> r == Err::<(Self, Self), TensorError>(TensorError::InvalidSplit),
            r matches Ok((left, right)) ==> {
                &&& left.id() == self.id()
                &&& right.id() == self.id() + 1_000_000
                &&& left.start() == self.start() && left.end() == split_point
                &&& right.start() == split_point && right.end() == self.end()
                &&& left.state() == self.state() && right.state() == self.state()
                &&& left.lifetime() == self.lifetime() && right.lifetime() == self.lifetime()
            },
    {
        if split_point <= self.owned_range.start || split_point >= self.owned_range.end {
            return Err(TensorError::InvalidSplit);
        }
        let left_token = OwnershipToken {
            token_id: self.token_id,
            owned_range: self.owned_range.start..split_point,
            verification_state: self.verification_state,
            lifetime_bound: self.lifetime_bound,
        };
        let right_token = OwnershipToken {
            token_id: self.token_id + 1000000,
            owned_range: split_point..self.owned_range.end,
            verification_state: self.verification_state,
            lifetime_bound: self.lifetime_bound,
        };
        Ok((left_token, right_token))
    }

    /// The range is still mapped and not claimed elsewhere; nothing in
    /// this kernel revokes a mapping under a live token.
    fn runtime_validity_check(&self) -> (r: bool)
        ensures
            r,
    {
        true
    }
}

/// Address `a` lies in `start..end`.
pub open spec fn in_range(start: u64, end: u64, a: u64) -> bool {
    start <= a < end
}

/// Splitting a token partitions its range: the two parts are adjacent,
/// non-empty and cover exactly the original range.
pub proof fn lemma_split_partitions(t: OwnershipToken, left: OwnershipToken, right: OwnershipToken)
    requires
        left.start() == t.start(),
        left.end() == right.start(),
        right.end() == t.end(),
        t.start() < left.end() < t.end(),
    ensures
        left.start() < left.end(),
        right.start() < right.end(),
        left.end() - left.start() + right.end() - right.start() == t.end() - t.start(),
        forall|a: u64| #[trigger] in_range(t.start(), t.end(), a) <==> (in_range(left.start(), left.end(), a) || in_range(right.start(), right.end(), a)),
        forall|a: u64| !(in_range(left.start(), left.end(), a) && #[trigger] in_range(right.start(), right.end(), a)),
{
}

/// Tensor shapes.
pub trait Shape: Sized {
    /// Number of elements, as a mathematical integer.
    spec fn elements(&self) -> int;

    /// The element count, computed dimension by dimension, fits in `usize`.
    spec fn fits(&self) -> bool;

    /// Whether slicing elements `start..end` is defined for this shape.
    spec fn can_slice(&self, start: usize, end: usize) -> bool;

    /// Shape of the slice `start..end`.
    spec fn sliced(&self, start: usize, end: usize) -> Self;

    /// Number of elements.
    fn total_elements(&self) -> (r: usize)
        requires
            self.fits(),
        ensures
            r as int == self.elements(),
    ;

    /// Bytes taken by the elements, each `elem_size` bytes wide.
    fn byte_size(&self, elem_size: usize) -> (r: usize)
        requires
            self.fits(),
            self.elements() * elem_size <= usize::MAX,
        ensures
            r as int == self.elements() * elem_size,
    ;

    /// Shape of the slice `start..end`.
    fn slice_shape(&self, start: usize, end: usize) -> (r: Self)
        requires
            self.can_slice(start, end),
        ensures
            r == self.sliced(start, end),
    ;

    /// The dimensions, outermost first.
    spec fn dims(&self) -> Seq<usize>;

    /// The dimensions, outermost first.
    fn dim_list(&self) -> (r: Vec<usize>)
        ensures
            r@ == self.dims(),
    ;
}

/// Row-major position of `indices` over dimensions `dims`, folding the
/// first `k` indices (Horner's rule: each step multiplies by the next
/// dimension and adds the next index); `None` once a step leaves `usize`.
pub open spec fn row_major_upto(indices: Seq<usize>, dims: Seq<usize>, k: int) -> Option<int>
    decreases k,
{
    if k <= 0 {
        Some(0)
    } else {
        match row_major_upto(indices, dims, k - 1) {
            Some(acc) => {
                let v = acc * dims[k - 1] + indices[k - 1];
                if acc * dims[k - 1] > usize::MAX || v > usize::MAX {
                    None
                } else {
                    Some(v)
                }
            },
            None => None,
        }
    }
}

/// Row-major element position of `indices` in a tensor of dimensions
/// `dims`; indices beyond the dimensions are ignored.
pub open spec fn row_major(indices: Seq<usize>, dims: Seq<usize>) -> Option<int> {
    row_major_upto(indices, dims, if indices.len() < dims.len() {
        indices.len() as int
    } else {
        dims.len() as int
    })
}

/// The row-major element position of `indices` over `dims`, when it fits
/// in `usize`.
pub fn row_major_index(indices: &[usize], dims: &Vec<usize>) -> (r: Option<usize>)
    ensures
        match row_major(indices@, dims@) {
            Some(v) => r matches Some(x) && x as int == v,
            None => r is None,
        },
{
    let n: usize = if indices.len() < dims.len() {
        indices.len()
    } else {
        dims.len()
    };
    let mut acc: usize = 0;
    let mut k: usize = 0;
    assert(row_major(indices@, dims@) == row_major_upto(indices@, dims@, n as int));
    while k < n
        invariant
            row_major(indices@, dims@) == row_major_upto(indices@, dims@, n as int),
            k <= n,
            n <= indices@.len(),
            n <= dims@.len(),
            row_major_upto(indices@, dims@, k as int) == Some(acc as int),
        decreases n - k,
    {
        let scaled = match acc.checked_mul(dims[k]) {
            Some(v) => v,
            None => {
                proof {
                    assert(row_major_upto(indices@, dims@, k as int + 1) is None);
                    lemma_row_major_stays_none(indices@, dims@, k as int + 1, n as int);
                }
                return None;
            },
        };
        let next = match scaled.checked_add(indices[k]) {
            Some(v) => v,
            None => {
                proof {
                    assert(row_major_upto(indices@, dims@, k as int + 1) is None);
                    lemma_row_major_stays_none(indices@, dims@, k as int + 1, n as int);
                }
                return None;
            },
        };
        acc = next;
        k = k + 1;
    }
    Some(acc)
}

/// Once the fold has left `usize`, it stays out.
proof fn lemma_row_major_stays_none(indices: Seq<usize>, dims: Seq<usize>, k: int, n: int)
    requires
        1 <= k <= n,
        row_major_upto(indices, dims, k) is None,
    ensures
        row_major_upto(indices, dims, n) is None,
    decreases n - k,
{
    if k < n {
        lemma_row_major_stays_none(indices, dims, k + 1, n);
    }
}

/// 1D tensor shape.
#[derive(Clone, Copy, PartialEq, Eq, Structural, Debug)]
pub struct Shape1D {
    pub dim0: usize,
}

impl Shape for Shape1D {
    open spec fn elements(&self) -> int {
        self.dim0 as int
    }

    open spec fn fits(&self) -> bool {
        true
    }

    open spec fn can_slice(&self, start: usize, end: usize) -> bool {
        start <= end
    }

    open spec fn sliced(&self, start: usize, end: usize) -> Self {
        Shape1D { dim0: (end - start) as usize }
    }

    fn total_elements(&self) -> (r: usize) {
        self.dim0
    }

    fn byte_size(&self, elem_size: usize) -> (r: usize) {
        self.dim0 * elem_size
    }

    fn slice_shape(&self, start: usize, end: usize) -> (r: Self) {
        Shape1D { dim0: end - start }
    }

    open spec fn dims(&self) -> Seq<usize> {
        seq![self.dim0]
    }

    fn dim_list(&self) -> (r: Vec<usize>) {
        let mut v: Vec<usize> = Vec::new();
        v.push(self.dim0);
        proof {
            assert(v@ =~= seq![self.dim0]);
        }
        v
    }
}

/// Rows of the slice `start..end` in a matrix of `per_row`-element rows.
pub open spec fn rows_spanned(start: usize, end: usize, per_row: usize) -> usize {
    ((end + per_row - 1) as int / per_row as int - start as int / per_row as int) as usize
}

/// A slice of a matrix keeps exactly the rows it touches: from the row of
/// its first element, the sliced rows reach past its end, and one row
/// fewer would not.
pub proof fn lemma_slice_rows_cover(d: Shape2D, start: usize, end: usize)
    requires
        d.can_slice(start, end),
        start < end,
    ensures
        (start / d.dim1) * d.dim1 + d.sliced(start, end).dim0 * d.dim1 >= end,
        (start / d.dim1) * d.dim1 + (d.sliced(start, end).dim0 - 1) * d.dim1 < end,
{
    let w = d.dim1 as int;
    let a = start as int / w;
    let q = (end + w - 1) as int / w;
    vstd::arithmetic::div_mod::lemma_fundamental_div_mod((end + w - 1) as int, w);
    vstd::arithmetic::div_mod::lemma_mod_bound((end + w - 1) as int, w);
    vstd::arithmetic::div_mod::lemma_div_is_ordered(start as int, (end + w - 1) as int, w);
    let k = d.sliced(start, end).dim0 as int;
    assert(k == q - a);
    assert(a * w + k * w == q * w) by (nonlinear_arith)
        requires
            k == q - a,
    ;
    assert(a * w + (k - 1) * w == q * w - w) by (nonlinear_arith)
        requires
            k == q - a,
    ;
    assert((start / d.dim1) * d.dim1 == a * w);
}

/// 2D tensor shape (matrices).
#[derive(Clone, Copy, PartialEq, Eq, Structural, Debug)]
pub struct Shape2D {
    pub dim0: usize,
    pub dim1: usize,
}

impl Shape for Shape2D {
    open spec fn elements(&self) -> int {
        self.dim0 * self.dim1
    }

    open spec fn fits(&self) -> bool {
        self.dim0 * self.dim1 <= usize::MAX
    }

    open spec fn can_slice(&self, start: usize, end: usize) -> bool {
        &&& self.dim1 > 0
        &&& start <= end
        &&& end + self.dim1 <= usize::MAX
    }

    open spec fn sliced(&self, start: usize, end: usize) -> Self {
        Shape2D { dim0: rows_spanned(start, end, self.dim1), dim1: self.dim1 }
    }

    fn total_elements(&self) -> (r: usize) {
        self.dim0 * self.dim1
    }

    fn byte_size(&self, elem_size: usize) -> (r: usize) {
        proof {
            assert(self.dim0 * self.dim1 * elem_size == (self.dim0 * self.dim1) * elem_size);
        }
        self.dim0 * self.dim1 * elem_size
    }

    fn slice_shape(&self, start: usize, end: usize) -> (r: Self) {
        let elements_per_row = self.dim1;
        let start_row = start / elements_per_row;
        let end_row = (end + elements_per_row - 1) / elements_per_row;
        proof {
            vstd::arithmetic::div_mod::lemma_div_is_ordered(
                start as int,
                (end + elements_per_row - 1) as int,
                elements_per_row as int,
            );
        }
        Shape2D { dim0: end_row - start_row, dim1: self.dim1 }
    }

    open spec fn dims(&self) -> Seq<usize> {
        seq![self.dim0, self.dim1]
    }

    fn dim_list(&self) -> (r: Vec<usize>) {
        let mut v: Vec<usize> = Vec::new();
        v.push(self.dim0);
        v.push(self.dim1);
        proof {
            assert(v@ =~= seq![self.dim0, self.dim1]);
        }
        v
    }
}

/// 4D tensor shape (NCHW).
#[derive(Clone, Copy, PartialEq, Eq, Structural, Debug)]
pub struct Shape4D {
    pub batch: usize,
    pub channels: usize,
    pub height: usize,
    pub width: usize,
}

/// Elements in one batch entry of a 4D shape.
pub open spec fn per_batch(s: Shape4D) -> int {
    s.channels * s.height * s.width
}

impl Shape for Shape4D {
    open spec fn elements(&self) -> int {
        self.batch * self.channels * self.height * self.width
    }

    open spec fn fits(&self) -> bool {
        &&& self.batch * self.channels <= usize::MAX
        &&& self.batch * self.channels * self.height <= usize::MAX
        &&& self.batch * self.channels * self.height * self.width <= usize::MAX
    }

    open spec fn can_slice(&self, start: usize, end: usize) -> bool {
        &&& self.channels * self.height <= usize::MAX
        &&& 0 < per_batch(*self) <= usize::MAX
        &&& start <= end
        &&& end + per_batch(*self) <= usize::MAX
    }

    open spec fn sliced(&self, start: usize, end: usize) -> Self {
        Shape4D {
            batch: rows_spanned(start, end, per_batch(*self) as usize),
            channels: self.channels,
            height: self.height,
            width: self.width,
        }
    }

    fn total_elements(&self) -> (r: usize) {
        self.batch * self.channels * self.height * self.width
    }

    fn byte_size(&self, elem_size: usize) -> (r: usize) {
        self.batch * self.channels * self.height * self.width * elem_size
    }

    fn slice_shape(&self, start: usize, end: usize) -> (r: Self) {
        let elements_per_batch = self.channels * self.height * self.width;
        let start_batch = start / elements_per_batch;
        let end_batch = (end + elements_per_batch - 1) / elements_per_batch;
        proof {
            vstd::arithmetic::div_mod::lemma_div_is_ordered(
                start as int,
                (end + elements_per_batch - 1) as int,
                elements_per_batch as int,
            );
        }
        Shape4D {
            batch: end_batch - start_batch,
            channels: self.channels,
            height: self.height,
            width: self.width,
        }
    }

    open spec fn dims(&self) -> Seq<usize> {
        seq![self.batch, self.channels, self.height, self.width]
    }

    fn dim_list(&self) -> (r: Vec<usize>) {
        let mut v: Vec<usize> = Vec::new();
        v.push(self.batch);
        v.push(self.channels);
        v.push(self.height);
        v.push(self.width);
        proof {
            assert(v@ =~= seq![self.batch, self.channels, self.height, self.width]);
        }
        v
    }
}

/// Memory stride of a tensor layout.
#[derive(Debug)]
pub struct Stride<S> {
    strides: Vec<usize>,
    _phantom: PhantomData<S>,
}

impl<S> Stride<S> {
    pub closed spec fn values(&self) -> Seq<usize> {
        self.strides@
    }

    /// Contiguous stride: the element stride is one.
    pub fn contiguous(_shape: &S) -> (r: Self)
        ensures
            r.values() == seq![1usize],
    {
        let mut strides: Vec<usize> = Vec::new();
        strides.push(1);
        Stride { strides, _phantom: PhantomData }
    }

    /// Stride of a slice: slicing keeps the stride.
    pub fn adjust_for_slice(&self, _start: usize, _end: usize) -> (r: Self)
        ensures
            r.values() == self.values(),
    {
        Stride { strides: self.strides.clone(), _phantom: PhantomData }
    }

    /// Byte offset of the element at `indices`: the first index times the
    /// element size (zero without indices).
    pub fn byte_offset(&self, indices: &[usize], elem_size: usize) -> (r: usize)
        requires
            indices@.len() > 0 ==> indices@[0] * elem_size <= usize::MAX,
        ensures
            r == (if indices@.len() > 0 {
                indices@[0] * elem_size
            } else {
                0
            }),
    {
        let first: usize = if indices.len() > 0 {
            indices[0]
        } else {
            0
        };
        first * elem_size
    }
}

/// Buffer that owns its elements and the token for their physical range.
#[derive(Debug)]
pub struct LinearBuffer<T> {
    physical_addr: u64,
    virtual_addr: u64,
    elements: Vec<T>,
    ownership_proof: OwnershipToken,
}

impl<T> LinearBuffer<T> {
    pub closed spec fn phys(&self) -> u64 {
        self.physical_addr
    }

    pub closed spec fn virt(&self) -> u64 {
        self.virtual_addr
    }

    pub closed spec fn contents(&self) -> Seq<T> {
        self.elements@
    }

    pub closed spec fn token(&self) -> OwnershipToken {
        self.ownership_proof
    }

    /// A buffer over `elements`, mapped at `virtual_addr`, whose token covers
    /// `elem_size` bytes per element from `physical_addr`.
    pub fn new(
        next_id: &mut u64,
        elements: Vec<T>,
        virtual_addr: u64,
        physical_addr: u64,
        elem_size: usize,
        lifetime: LifetimeBound,
    ) -> (r: Result<Self, TensorError>)
        requires
            *old(next_id) < u64::MAX,
            physical_addr + elements@.len() * elem_size <= u64::MAX,
        ensures
            r matches Ok(b) && b.contents() == elements@ && b.phys() == physical_addr && b.virt()
                == virtual_addr && b.token().start() == physical_addr && b.token().end() == physical_addr
                + elements@.len() * elem_size && b.token().state() is RuntimeVerified && b.token().id()
                == *old(next_id),
            *final(next_id) == *old(next_id) + 1,
    {
        proof {
            vstd::arithmetic::mul::lemma_mul_upper_bound(
                elements@.len() as int,
                elements@.len() as int,
                elem_size as int,
                elem_size as int,
            );
        }
        let size_bytes = (elements.len() as u64) * (elem_size as u64);
        let ownership_proof = OwnershipToken::new(
            next_id,
            physical_addr..(physical_addr + size_bytes),
            lifetime,
        );
        Ok(LinearBuffer { physical_addr, virtual_addr, elements, ownership_proof })
    }

    /// Physical address.
    pub fn physical_addr(&self) -> (r: u64)
        ensures
            r == self.phys(),
    {
        self.physical_addr
    }

    /// Virtual address.
    pub fn virtual_addr(&self) -> (r: u64)
        ensures
            r == self.virt(),
    {
        self.virtual_addr
    }

    /// Number of elements.
    pub fn len(&self) -> (r: usize)
        ensures
            r == self.contents().len(),
    {
        self.elements.len()
    }

    /// Whether the ownership token is valid.
    pub fn is_accessible(&self) -> (r: bool)
        ensures
            r == state_valid(self.token().state()),
    {
        self.ownership_proof.is_valid()
    }

    /// Zero-copy slice `start..end`: the addresses move by `start` elements
    /// of `elem_size` bytes and the token passes to the slice.
    pub fn verified_slice(self, start: usize, end: usize, elem_size: usize) -> (r: Result<
        LinearBuffer<T>,
        TensorError,
    >)
        requires
            start <= end,
            self.phys() + start * elem_size <= u64::MAX,
            self.virt() + start * elem_size <= u64::MAX,
        ensures
            r is Err <==> end > self.contents().len(),
            r is Err ==> r == Err::<LinearBuffer<T>, TensorError>(TensorError::IndexOutOfBounds),
            r matches Ok(b) ==> b.contents() == self.contents().subrange(start as int, end as int)
                && b.phys() == self.phys() + start * elem_size && b.virt() == self.virt() + start
                * elem_size && b.token() == self.token(),
    {
        if end > self.elements.len() {
            return Err(TensorError::IndexOutOfBounds);
        }
        proof {
            vstd::arithmetic::mul::lemma_mul_upper_bound(
                start as int,
                start as int,
                elem_size as int,
                elem_size as int,
            );
        }
        let offset_bytes = (start as u64) * (elem_size as u64);
        let slice_ownership = self.ownership_proof.transfer();
        let mut elements = self.elements;
        let mut tail = elements.split_off(start);
        let _rest = tail.split_off(end - start);
        Ok(
            LinearBuffer {
                physical_addr: self.physical_addr + offset_bytes,
                virtual_addr: self.virtual_addr + offset_bytes,
                elements: tail,
                ownership_proof: slice_ownership,
            },
        )
    }

    /// Element `index` when it exists and the buffer is accessible.
    pub fn get(&self, index: usize) -> (r: Option<&T>)
        ensures
            r is Some <==> (index < self.contents().len() && state_valid(self.token().state())),
            r matches Some(v) ==> *v == self.contents()[index as int],
    {
        if index < self.elements.len() && self.is_accessible() {
            Some(&self.elements[index])
        } else {
            None
        }
    }

    /// Replaces element `index` when it exists and the buffer is accessible;
    /// returns whether it did.
    pub fn get_mut(&mut self, index: usize, value: T) -> (r: bool)
        ensures
            r == (index < old(self).contents().len() && state_valid(old(self).token().state())),
            r ==> final(self).contents() == old(self).contents().update(index as int, value),
            !r ==> final(self).contents() == old(self).contents(),
            final(self).token() == old(self).token(),
            final(self).phys() == old(self).phys(),
            final(self).virt() == old(self).virt(),
    {
        if index < self.elements.len() && self.is_accessible() {
            self.elements.set(index, value);
            true
        } else {
            false
        }
    }
}

/// Tensor view with linear ownership of its buffer.
#[derive(Debug)]
pub struct TensorView<T, S> {
    data: LinearBuffer<T>,
    shape: S,
    stride: Stride<S>,
    ownership_proof: OwnershipToken,
}

impl<T, S: Shape> TensorView<T, S> {
    pub closed spec fn buffer(&self) -> LinearBuffer<T> {
        self.data
    }

    pub closed spec fn spec_shape(&self) -> S {
        self.shape
    }

    pub closed spec fn spec_stride(&self) -> Stride<S> {
        self.stride
    }

    pub closed spec fn token(&self) -> OwnershipToken {
        self.ownership_proof
    }

    /// A view over `elements` with a buffer token and a view token for the
    /// shape's bytes.
    pub fn new(
        next_id: &mut u64,
        elements: Vec<T>,
        virtual_addr: u64,
        physical_addr: u64,
        shape: S,
        elem_size: usize,
        lifetime: LifetimeBound,
    ) -> (r: Result<Self, TensorError>)
        requires
            *old(next_id) + 1 < u64::MAX,
            shape.fits(),
            elements@.len() == shape.elements(),
            shape.elements() * elem_size <= usize::MAX,
            physical_addr + elements@.len() * elem_size <= u64::MAX,
        ensures
            r matches Ok(v) && v.buffer().contents() == elements@ && v.spec_shape() == shape
                && v.buffer().phys() == physical_addr && v.token().start() == physical_addr && v.token().end()
                == physical_addr + shape.elements() * elem_size && v.token().state() is RuntimeVerified,
            *final(next_id) == *old(next_id) + 2,
    {
        let data = match LinearBuffer::new(
            next_id,
            elements,
            virtual_addr,
            physical_addr,
            elem_size,
            lifetime,
        ) {
            Ok(d) => d,
            Err(e) => {
                return Err(e);
            },
        };
        let stride = Stride::contiguous(&shape);
        let bytes = shape.byte_size(elem_size);
        let ownership_proof = OwnershipToken::new(
            next_id,
            physical_addr..(physical_addr + bytes as u64),
            lifetime,
        );
        Ok(TensorView { data, shape, stride, ownership_proof })
    }

    /// Zero-copy slice `start..end` of the elements: needs a valid view
    /// token; the buffer and tokens pass to the slice, whose shape is the
    /// sliced shape.
    pub fn zero_copy_slice(self, start: usize, end: usize, elem_size: usize) -> (r: Result<
        TensorView<T, S>,
        TensorError,
    >)
        requires
            start <= end,
            self.spec_shape().can_slice(start, end),
            self.buffer().phys() + start * elem_size <= u64::MAX,
            self.buffer().virt() + start * elem_size <= u64::MAX,
        ensures
            !state_valid(self.token().state()) ==> r == Err::<TensorView<T, S>, TensorError>(
                TensorError::OwnershipViolation,
            ),
            state_valid(self.token().state()) && end > self.buffer().contents().len() ==> r == Err::<
                TensorView<T, S>,
                TensorError,
            >(TensorError::IndexOutOfBounds),
            r is Ok <==> (state_valid(self.token().state()) && end <= self.buffer().contents().len()),
            r matches Ok(v) ==> v.buffer().contents() == self.buffer().contents().subrange(
                start as int,
                end as int,
            ) && v.spec_shape() == self.spec_shape().sliced(start, end) && v.token() == self.token()
                && v.spec_stride().values() == self.spec_stride().values(),
    {
        if !self.ownership_proof.is_valid() {
            return Err(TensorError::OwnershipViolation);
        }
        let sliced_buffer = match self.data.verified_slice(start, end, elem_size) {
            Ok(b) => b,
            Err(e) => {
                return Err(e);
            },
        };
        let sliced_shape = self.shape.slice_shape(start, end);
        let adjusted_stride = self.stride.adjust_for_slice(start, end);
        let transferred_ownership = self.ownership_proof.transfer();
        Ok(
            TensorView {
                data: sliced_buffer,
                shape: sliced_shape,
                stride: Stride { strides: adjusted_stride.strides, _phantom: PhantomData },
                ownership_proof: transferred_ownership,
            },
        )
    }

    /// Tensor shape.
    pub fn shape(&self) -> (r: &S)
        ensures
            *r == self.spec_shape(),
    {
        &self.shape
    }

    /// Stride information.
    pub fn stride(&self) -> (r: &Stride<S>)
        ensures
            *r == self.spec_stride(),
    {
        &self.stride
    }

    /// Bytes of the tensor.
    pub fn byte_size(&self, elem_size: usize) -> (r: usize)
        requires
            self.spec_shape().fits(),
            self.spec_shape().elements() * elem_size <= usize::MAX,
        ensures
            r == self.spec_shape().elements() * elem_size,
    {
        self.shape.byte_size(elem_size)
    }

    /// Both the buffer and the view token are valid.
    pub fn is_accessible(&self) -> (r: bool)
        ensures
            r == (state_valid(self.buffer().token().state()) && state_valid(self.token().state())),
    {
        self.data.is_accessible() && self.ownership_proof.is_valid()
    }

    /// Element at the multi-dimensional `indices`, laid out row-major over
    /// the shape's dimensions; none without indices, out of range, or when
    /// the buffer is not accessible.
    pub fn get(&self, indices: &[usize]) -> (r: Option<&T>)
        ensures
            indices@.len() == 0 ==> r is None,
            indices@.len() > 0 ==> (r is Some <==> (row_major(indices@, self.spec_shape().dims()) matches Some(
                li,
            ) && li < self.buffer().contents().len() && state_valid(self.buffer().token().state()))),
            r matches Some(v) ==> (row_major(indices@, self.spec_shape().dims()) matches Some(li) && *v
                == self.buffer().contents()[li]),
    {
        if indices.len() == 0 {
            return None;
        }
        let dims = self.shape.dim_list();
        match row_major_index(indices, &dims) {
            Some(linear_index) => self.data.get(linear_index),
            None => None,
        }
    }

    /// Replaces the element at the multi-dimensional `indices` (row-major
    /// over the shape's dimensions); returns whether it did.
    pub fn get_mut(&mut self, indices: &[usize], value: T) -> (r: bool)
        ensures
            indices@.len() == 0 ==> !r,
            indices@.len() > 0 ==> r == (row_major(indices@, old(self).spec_shape().dims()) matches Some(li) && li
                < old(self).buffer().contents().len() && state_valid(old(self).buffer().token().state())),
            r ==> (row_major(indices@, old(self).spec_shape().dims()) matches Some(li)
                && final(self).buffer().contents() == old(self).buffer().contents().update(li, value)),
            !r ==> final(self).buffer().contents() == old(self).buffer().contents(),
            final(self).spec_shape() == old(self).spec_shape(),
            final(self).token() == old(self).token(),
    {
        if indices.len() == 0 {
            return false;
        }
        let dims = self.shape.dim_list();
        match row_major_index(indices, &dims) {
            Some(linear_index) => self.data.get_mut(linear_index, value),
            None => false,
        }
    }
}


/// Device identifier for DMA operations.
#[derive(Clone, Copy, PartialEq, Eq, Structural, Debug)]
pub enum DeviceId {
    CPU,
    NeuralEngine(u8),
    GPU(u8),
    Accelerator { device_type: u8, instance: u8 },
}

/// DMA transfer identifier.
#[derive(Clone, Copy, PartialEq, Eq, Structural, Debug)]
pub struct DmaTransferId(pub u64);

/// DMA permissions following W^X.
#[derive(Clone, Copy, PartialEq, Eq, Structural, Debug)]
pub struct DmaPermissions {
    pub read: bool,
    pub write: bool,
    pub execute: bool,
}

impl DmaPermissions {
    /// Read-only access.
    pub fn read_only() -> (r: Self)
        ensures
            r == (DmaPermissions { read: true, write: false, execute: false }),
    {
        DmaPermissions { read: true, write: false, execute: false }
    }

    /// Write-only access.
    pub fn write_only() -> (r: Self)
        ensures
            r == (DmaPermissions { read: false, write: true, execute: false }),
    {
        DmaPermissions { read: false, write: true, execute: false }
    }

    /// Read-write access.
    pub fn read_write() -> (r: Self)
        ensures
            r == (DmaPermissions { read: true, write: true, execute: false }),
    {
        DmaPermissions { read: true, write: true, execute: false }
    }
}

/// DMA configuration of a tensor transfer.
#[derive(Clone, Copy, Debug)]
pub struct DmaConfig {
    pub src_addr: u64,
    pub dst_device: DeviceId,
    pub size: usize,
    pub permissions: DmaPermissions,
}

/// Allocation metadata of a protected region.
#[derive(Clone, Copy, Debug)]
pub struct AllocationMetadata {
    pub timestamp: u64,
    pub capability_id: Option<u64>,
    pub access_count: u64,
}

/// Canaries guarding a region against overflows.
#[derive(Clone, Copy, Debug)]
pub struct BoundsCanaries {
    pub prefix_canary: u64,
    pub suffix_canary: u64,
    pub expected_prefix: u64,
    pub expected_suffix: u64,
}

/// Both canaries still hold their expected values.
pub open spec fn canaries_intact(c: BoundsCanaries) -> bool {
    c.prefix_canary == c.expected_prefix && c.suffix_canary == c.expected_suffix
}

/// A protected GPU memory region.
#[derive(Debug)]
pub struct MemoryRegion {
    pub range: Range<u64>,
    pub metadata: AllocationMetadata,
    pub canaries: BoundsCanaries,
}

/// Source of canary values: generation `g` guards with `g * 0xDEADBEEF`
/// before and `g * 0xCAFEBABE` after a region.
#[derive(Debug)]
pub struct CanaryManager {
    pub generation: u64,
    pub seed: [u8; 32],
}

impl CanaryManager {
    /// Canaries of the current generation; the generation moves on.
    pub fn generate_canaries(&mut self) -> (r: BoundsCanaries)
        requires
            old(self).generation * 0xDEADBEEF <= u64::MAX,
            old(self).generation * 0xCAFEBABE <= u64::MAX,
            old(self).generation < u64::MAX,
        ensures
            r.prefix_canary == old(self).generation * 0xDEADBEEF,
            r.suffix_canary == old(self).generation * 0xCAFEBABE,
            canaries_intact(r),
            final(self).generation == old(self).generation + 1,
            final(self).seed == old(self).seed,
    {
        let prefix = self.generation * 0xDEADBEEF;
        let suffix = self.generation * 0xCAFEBABE;
        self.generation = self.generation + 1;
        BoundsCanaries {
            prefix_canary: prefix,
            suffix_canary: suffix,
            expected_prefix: prefix,
            expected_suffix: suffix,
        }
    }
}

/// The half-open ranges `a` and `b` share an address.
pub open spec fn overlaps(a_start: u64, a_end: u64, b_start: u64, b_end: u64) -> bool {
    a_start < b_end && b_start < a_end
}

/// GPU bounds checker: protected regions per device and their canaries.
#[derive(Debug)]
pub struct GpuBoundsChecker {
    gpu_regions: Vec<(DeviceId, MemoryRegion)>,
    canary_manager: CanaryManager,
}

impl GpuBoundsChecker {
    pub closed spec fn regions(&self) -> Seq<(DeviceId, MemoryRegion)> {
        self.gpu_regions@
    }

    pub closed spec fn next_generation(&self) -> u64 {
        self.canary_manager.generation
    }

    /// No regions; canaries start at generation one.
    pub fn new() -> (r: Self)
        ensures
            r.regions().len() == 0,
            r.next_generation() == 1,
    {
        GpuBoundsChecker {
            gpu_regions: Vec::new(),
            canary_manager: CanaryManager { generation: 1, seed: [0u8; 32] },
        }
    }

    /// Refuses a DMA over `start..end` when it overlaps a protected region
    /// whose canaries were overwritten.
    pub fn validate_range(&self, start: u64, end: u64) -> (r: Result<(), DmaError>)
        ensures
            r is Err <==> exists|i: int|
                0 <= i < self.regions().len() && overlaps(
                    start,
                    end,
                    (#[trigger] self.regions()[i]).1.range.start,
                    self.regions()[i].1.range.end,
                ) && !canaries_intact(self.regions()[i].1.canaries),
            r is Err ==> r == Err::<(), DmaError>(DmaError::BufferOverflow),
    {
        let mut i: usize = 0;
        while i < self.gpu_regions.len()
            invariant
                i <= self.regions().len(),
                forall|k: int|
                    0 <= k < i ==> !(overlaps(
                        start,
                        end,
                        (#[trigger] self.regions()[k]).1.range.start,
                        self.regions()[k].1.range.end,
                    ) && !canaries_intact(self.regions()[k].1.canaries)),
            decreases self.regions().len() - i,
        {
            let region = &self.gpu_regions[i].1;
            if self.ranges_overlap(start, end, region.range.start, region.range.end) {
                if !self.verify_canaries(&region.canaries) {
                    return Err(DmaError::BufferOverflow);
                }
            }
            i = i + 1;
        }
        Ok(())
    }

    /// Bounds check of a tensor before a DMA: its bytes from its physical
    /// address.
    pub fn validate_tensor_bounds<T, S: Shape>(&self, tensor: &TensorView<T, S>, elem_size: usize) -> (r: Result<(), DmaError>)
        requires
            tensor.spec_shape().fits(),
            tensor.spec_shape().elements() * elem_size <= usize::MAX,
            tensor.buffer().phys() + tensor.spec_shape().elements() * elem_size <= u64::MAX,
        ensures
            r is Err <==> exists|i: int|
                0 <= i < self.regions().len() && overlaps(
                    tensor.buffer().phys(),
                    (tensor.buffer().phys() + tensor.spec_shape().elements() * elem_size) as u64,
                    (#[trigger] self.regions()[i]).1.range.start,
                    self.regions()[i].1.range.end,
                ) && !canaries_intact(self.regions()[i].1.canaries),
    {
        let physical_addr = tensor.data.physical_addr();
        let size = tensor.byte_size(elem_size) as u64;
        self.validate_range(physical_addr, physical_addr + size)
    }

    /// Protects `range` of `device` with fresh canaries.
    pub fn register_gpu_region(
        &mut self,
        device: DeviceId,
        range: Range<u64>,
        capability_id: Option<u64>,
    ) -> (r: Result<(), DmaError>)
        requires
            old(self).next_generation() * 0xDEADBEEF <= u64::MAX,
            old(self).next_generation() * 0xCAFEBABE <= u64::MAX,
            old(self).next_generation() < u64::MAX,
        ensures
            r is Ok,
            final(self).regions().len() == old(self).regions().len() + 1,
            final(self).regions().drop_last() == old(self).regions(),
            final(self).regions().last().0 == device,
            final(self).regions().last().1.range == range,
            final(self).regions().last().1.metadata == (AllocationMetadata {
                timestamp: 0,
                capability_id,
                access_count: 0,
            }),
            canaries_intact(final(self).regions().last().1.canaries),
            final(self).next_generation() == old(self).next_generation() + 1,
    {
        let canaries = self.canary_manager.generate_canaries();
        let region = MemoryRegion {
            range,
            metadata: AllocationMetadata {
                timestamp: self.get_current_timestamp(),
                capability_id,
                access_count: 0,
            },
            canaries,
        };
        self.gpu_regions.push((device, region));
        proof {
            assert(self.regions().drop_last() =~= old(self).regions());
        }
        Ok(())
    }

    fn ranges_overlap(&self, a_start: u64, a_end: u64, b_start: u64, b_end: u64) -> (r: bool)
        ensures
            r == overlaps(a_start, a_end, b_start, b_end),
    {
        a_start < b_end && b_start < a_end
    }

    fn verify_canaries(&self, canaries: &BoundsCanaries) -> (r: bool)
        ensures
            r == canaries_intact(*canaries),
    {
        canaries.prefix_canary == canaries.expected_prefix && canaries.suffix_canary
            == canaries.expected_suffix
    }

    /// Timestamps of this checker: the kernel has no timer here, so zero.
    fn get_current_timestamp(&self) -> (r: u64)
        ensures
            r == 0,
    {
        0
    }
}

/// Page permissions.
#[derive(Clone, Copy, PartialEq, Eq, Structural, Debug)]
pub struct PagePermissions {
    pub read: bool,
    pub write: bool,
    pub execute: bool,
    pub user: bool,
}

/// Usage statistics of a page.
#[derive(Clone, Copy, PartialEq, Eq, Structural, Debug)]
pub struct PageUsageStats {
    pub last_access: u64,
    pub access_count: u64,
    pub last_device: DeviceId,
}

/// A unified virtual memory page table entry.
#[derive(Clone, Copy, PartialEq, Eq, Structural, Debug)]
pub struct PageTableEntry {
    pub pfn: u64,
    pub permissions: PagePermissions,
    pub usage_stats: PageUsageStats,
}

/// Migration policy of unified virtual memory.
#[derive(Clone, Copy, PartialEq, Eq, Structural, Debug)]
pub enum UvmMigrationPolicy {
    LazyMigration,
    PredictiveMigration,
    Pinned,
}

/// Page addresses in `s` are pairwise distinct.
pub open spec fn pages_unique(s: Seq<(u64, PageTableEntry)>) -> bool {
    forall|i: int, j: int| 0 <= i < j < s.len() ==> (#[trigger] s[i]).0 != (#[trigger] s[j]).0
}

/// The page table as a map from page address to entry.
pub open spec fn page_map(s: Seq<(u64, PageTableEntry)>) -> Map<u64, PageTableEntry>
    decreases s.len(),
{
    if s.len() == 0 {
        Map::empty()
    } else {
        page_map(s.drop_last()).insert(s.last().0, s.last().1)
    }
}

proof fn lemma_page_map_lookup(s: Seq<(u64, PageTableEntry)>, i: int)
    requires
        pages_unique(s),
        0 <= i < s.len(),
    ensures
        page_map(s).contains_key(s[i].0),
        page_map(s)[s[i].0] == s[i].1,
    decreases s.len(),
{
    if i < s.len() - 1 {
        assert(pages_unique(s.drop_last())) by {
            assert forall|a: int, b: int| 0 <= a < b < s.drop_last().len() implies (#[trigger] s.drop_last()[a]).0
                != (#[trigger] s.drop_last()[b]).0 by {
                assert(s[a].0 != s[b].0);
            }
        }
        lemma_page_map_lookup(s.drop_last(), i);
        assert(s[i].0 != s.last().0);
    }
}

proof fn lemma_page_map_absent(s: Seq<(u64, PageTableEntry)>, k: u64)
    requires
        forall|i: int| 0 <= i < s.len() ==> (#[trigger] s[i]).0 != k,
    ensures
        !page_map(s).contains_key(k),
    decreases s.len(),
{
    if s.len() > 0 {
        lemma_page_map_absent(s.drop_last(), k);
    }
}

proof fn lemma_page_map_update(s: Seq<(u64, PageTableEntry)>, i: int, e: PageTableEntry)
    requires
        pages_unique(s),
        0 <= i < s.len(),
    ensures
        pages_unique(s.update(i, (s[i].0, e))),
        page_map(s.update(i, (s[i].0, e))) == page_map(s).insert(s[i].0, e),
    decreases s.len(),
{
    let t = s.update(i, (s[i].0, e));
    assert forall|a: int, b: int| 0 <= a < b < t.len() implies (#[trigger] t[a]).0 != (#[trigger] t[b]).0 by {
        assert(s[a].0 != s[b].0);
    }
    assert(pages_unique(s.drop_last())) by {
        assert forall|a: int, b: int| 0 <= a < b < s.drop_last().len() implies (#[trigger] s.drop_last()[a]).0
            != (#[trigger] s.drop_last()[b]).0 by {
            assert(s[a].0 != s[b].0);
        }
    }
    if i == s.len() - 1 {
        assert(t.drop_last() =~= s.drop_last());
        assert(page_map(t) =~= page_map(s).insert(s[i].0, e));
    } else {
        lemma_page_map_update(s.drop_last(), i, e);
        assert(t.drop_last() =~= s.drop_last().update(i, (s[i].0, e)));
        assert(s[i].0 != s.last().0);
        assert(page_map(t) =~= page_map(s).insert(s[i].0, e));
    }
}

/// Page-aligned address of `va` (4 KiB pages).
pub open spec fn page_of(va: u64) -> u64 {
    va & !0xFFFu64
}

/// Pages are 4 KiB: the page of an address is the address with its offset
/// within 4 KiB removed, so two addresses share a page exactly when they
/// lie in the same 4 KiB frame, and an address lies in its page.
pub proof fn lemma_page_is_4k(a: u64, b: u64)
    ensures
        page_of(a) == a - a % 4096,
        page_of(a) <= a < page_of(a) + 4096,
        page_of(a) == page_of(b) <==> a / 4096 == b / 4096,
{
    assert({
        &&& a & !0xFFFu64 == a - a % 4096
        &&& b & !0xFFFu64 == b - b % 4096
        &&& (a & !0xFFFu64 == b & !0xFFFu64) <==> a / 4096 == b / 4096
    }) by (bit_vector);
}

/// Mapping the page of `va` (as `map_page` does, by inserting at its page
/// key) changes, for an address in another 4 KiB page, neither whether its
/// page is mapped nor what it is mapped to.
pub proof fn lemma_map_leaves_other_pages(pages: Map<u64, PageTableEntry>, va: u64, entry: PageTableEntry, addr: u64)
    requires
        addr / 4096 != va / 4096,
    ensures
        pages.insert(page_of(va), entry).contains_key(page_of(addr)) == pages.contains_key(page_of(addr)),
        pages.insert(page_of(va), entry)[page_of(addr)] == pages[page_of(addr)],
{
    lemma_page_is_4k(addr, va);
}

/// Unified virtual memory manager.
#[derive(Debug)]
pub struct UnifiedVirtualMemory {
    page_tables: Vec<(u64, PageTableEntry)>,
    migration_policy: UvmMigrationPolicy,
}

impl UnifiedVirtualMemory {
    pub closed spec fn table(&self) -> Seq<(u64, PageTableEntry)> {
        self.page_tables@
    }

    /// Mapped pages.
    pub open spec fn pages(&self) -> Map<u64, PageTableEntry> {
        page_map(self.table())
    }

    pub closed spec fn policy(&self) -> UvmMigrationPolicy {
        self.migration_policy
    }

    pub open spec fn wf(&self) -> bool {
        pages_unique(self.table())
    }

    /// An empty page table.
    pub fn new(policy: UvmMigrationPolicy) -> (r: Self)
        ensures
            r.wf(),
            r.pages() == Map::<u64, PageTableEntry>::empty(),
            r.policy() == policy,
    {
        UnifiedVirtualMemory { page_tables: Vec::new(), migration_policy: policy }
    }

    fn find_page(&self, page: u64) -> (r: Option<usize>)
        requires
            self.wf(),
        ensures
            r is None ==> !self.pages().contains_key(page),
            r matches Some(i) ==> i < self.table().len() && self.table()[i as int].0 == page,
    {
        let mut i: usize = 0;
        while i < self.page_tables.len()
            invariant
                i <= self.table().len(),
                forall|k: int| 0 <= k < i ==> (#[trigger] self.table()[k]).0 != page,
            decreases self.table().len() - i,
        {
            if self.page_tables[i].0 == page {
                return Some(i);
            }
            i = i + 1;
        }
        proof {
            lemma_page_map_absent(self.table(), page);
        }
        None
    }

    /// Maps the 4 KiB page of `virtual_addr` to the frame of
    /// `physical_addr` with fresh usage statistics, replacing a mapping of
    /// the same page.
    pub fn map_page(&mut self, virtual_addr: u64, physical_addr: u64, permissions: PagePermissions) -> (r: Result<(), DmaError>)
        requires
            old(self).wf(),
        ensures
            r is Ok,
            final(self).wf(),
            final(self).policy() == old(self).policy(),
            final(self).pages() == old(self).pages().insert(
                page_of(virtual_addr),
                PageTableEntry {
                    pfn: physical_addr >> 12u64,
                    permissions,
                    usage_stats: PageUsageStats { last_access: 0, access_count: 0, last_device: DeviceId::CPU },
                },
            ),
    {
        let page_addr = virtual_addr & !0xFFFu64;
        let pfn = physical_addr >> 12u64;
        let entry = PageTableEntry {
            pfn,
            permissions,
            usage_stats: PageUsageStats { last_access: 0, access_count: 0, last_device: DeviceId::CPU },
        };
        match self.find_page(page_addr) {
            Some(i) => {
                let ghost s = self.page_tables@;
                self.page_tables.set(i, (page_addr, entry));
                proof {
                    lemma_page_map_update(s, i as int, entry);
                }
            },
            None => {
                let ghost s = self.page_tables@;
                self.page_tables.push((page_addr, entry));
                proof {
                    assert(self.page_tables@.drop_last() =~= s);
                    assert forall|a: int, b: int| 0 <= a < b < self.table().len() implies (#[trigger] self.table()[a]).0
                        != (#[trigger] self.table()[b]).0 by {
                        if b == s.len() {
                            if s[a].0 == page_addr {
                                lemma_page_map_lookup(s, a);
                            }
                        } else {
                            assert(s[a].0 != s[b].0);
                        }
                    }
                }
            },
        }
        Ok(())
    }

    /// Resolves a fault on `virtual_addr` by `accessing_device`: the page's
    /// usage is recorded and the physical address returned.
    pub fn handle_page_fault(&mut self, virtual_addr: u64, accessing_device: DeviceId) -> (r: Result<u64, DmaError>)
        requires
            old(self).wf(),
            old(self).pages().contains_key(page_of(virtual_addr)) ==> old(self).pages()[page_of(
                virtual_addr,
            )].usage_stats.access_count < u64::MAX,
        ensures
            final(self).wf(),
            final(self).policy() == old(self).policy(),
            r is Err <==> !old(self).pages().contains_key(page_of(virtual_addr)),
            r is Err ==> r == Err::<u64, DmaError>(DmaError::PageNotMapped) && final(self).pages() == old(self).pages(),
            r matches Ok(pa) ==> {
                let e = old(self).pages()[page_of(virtual_addr)];
                &&& pa == (e.pfn << 12u64) | (virtual_addr & 0xFFFu64)
                &&& final(self).pages() == old(self).pages().insert(
                    page_of(virtual_addr),
                    PageTableEntry {
                        pfn: e.pfn,
                        permissions: e.permissions,
                        usage_stats: PageUsageStats {
                            last_access: 0,
                            access_count: (e.usage_stats.access_count + 1) as u64,
                            last_device: accessing_device,
                        },
                    },
                )
            },
    {
        let page_addr = virtual_addr & !0xFFFu64;
        match self.find_page(page_addr) {
            Some(i) => {
                let ghost s = self.page_tables@;
                proof {
                    lemma_page_map_lookup(s, i as int);
                }
                let (p, entry) = self.page_tables[i];
                let mut updated = entry;
                updated.usage_stats.last_access = self.get_current_timestamp();
                updated.usage_stats.access_count = entry.usage_stats.access_count + 1;
                updated.usage_stats.last_device = accessing_device;
                self.page_tables.set(i, (p, updated));
                proof {
                    lemma_page_map_update(s, i as int, updated);
                }
                Ok((entry.pfn << 12u64) | (virtual_addr & 0xFFFu64))
            },
            None => Err(DmaError::PageNotMapped),
        }
    }

    fn get_current_timestamp(&self) -> (r: u64)
        ensures
            r == 0,
    {
        0
    }
}

/// State of a DMA transfer.
#[derive(Clone, Copy, PartialEq, Eq, Structural, Debug)]
pub enum DmaTransferState {
    Pending,
    InProgress,
    Completed,
    Failed(DmaError),
}

/// A DMA transfer record.
#[derive(Clone, Copy, Debug)]
pub struct DmaTransfer {
    pub config: DmaConfig,
    pub state: DmaTransferState,
    pub start_time: u64,
}

/// DMA manager: bounds checking, unified virtual memory and the records of
/// started transfers.
pub struct AIDmaManager {
    bounds_checker: GpuBoundsChecker,
    uvm_manager: UnifiedVirtualMemory,
    active_transfers: Vec<(DmaTransferId, DmaTransfer)>,
    next_transfer_id: u64,
}

impl AIDmaManager {
    pub closed spec fn checker(&self) -> GpuBoundsChecker {
        self.bounds_checker
    }

    pub closed spec fn uvm(&self) -> UnifiedVirtualMemory {
        self.uvm_manager
    }

    pub closed spec fn transfers(&self) -> Seq<(DmaTransferId, DmaTransfer)> {
        self.active_transfers@
    }

    pub closed spec fn next_id(&self) -> u64 {
        self.next_transfer_id
    }

    /// Transfer identifiers are below the next one and strictly increasing.
    pub open spec fn wf(&self) -> bool {
        &&& forall|i: int| 0 <= i < self.transfers().len() ==> (#[trigger] self.transfers()[i]).0.0 < self.next_id()
        &&& forall|i: int, j: int|
            0 <= i < j < self.transfers().len() ==> (#[trigger] self.transfers()[i]).0.0 < (
            #[trigger] self.transfers()[j]).0.0
        &&& self.uvm().wf()
    }

    /// No transfers; identifiers start at one; predictive page migration.
    pub fn new() -> (r: Self)
        ensures
            r.wf(),
            r.transfers().len() == 0,
            r.next_id() == 1,
            r.checker().regions().len() == 0,
            r.uvm().pages() == Map::<u64, PageTableEntry>::empty(),
            r.uvm().policy() == UvmMigrationPolicy::PredictiveMigration,
    {
        AIDmaManager {
            bounds_checker: GpuBoundsChecker::new(),
            uvm_manager: UnifiedVirtualMemory::new(UvmMigrationPolicy::PredictiveMigration),
            active_transfers: Vec::new(),
            next_transfer_id: 1,
        }
    }

    /// Starts a read-only DMA of `src` to `dst_device` after its bounds
    /// check; the transfer is recorded as pending.
    pub fn dma_transfer_tensor<T, S: Shape>(&mut self, src: &TensorView<T, S>, dst_device: DeviceId, elem_size: usize) -> (r: Result<DmaTransferId, DmaError>)
        requires
            old(self).wf(),
            old(self).next_id() < u64::MAX,
            src.spec_shape().fits(),
            src.spec_shape().elements() * elem_size <= usize::MAX,
            src.buffer().phys() + src.spec_shape().elements() * elem_size <= u64::MAX,
        ensures
            final(self).wf(),
            r is Err <==> exists|i: int|
                0 <= i < old(self).checker().regions().len() && overlaps(
                    src.buffer().phys(),
                    (src.buffer().phys() + src.spec_shape().elements() * elem_size) as u64,
                    (#[trigger] old(self).checker().regions()[i]).1.range.start,
                    old(self).checker().regions()[i].1.range.end,
                ) && !canaries_intact(old(self).checker().regions()[i].1.canaries),
            r is Err ==> final(self).transfers() == old(self).transfers(),
            r matches Ok(id) ==> id == DmaTransferId(old(self).next_id()) && final(self).transfers() == old(self).transfers().push(
                (
                    id,
                    DmaTransfer {
                        config: DmaConfig {
                            src_addr: src.buffer().phys(),
                            dst_device,
                            size: (src.spec_shape().elements() * elem_size) as usize,
                            permissions: DmaPermissions { read: true, write: false, execute: false },
                        },
                        state: DmaTransferState::Pending,
                        start_time: 0,
                    },
                ),
            ),
    {
        match self.bounds_checker.validate_tensor_bounds(src, elem_size) {
            Ok(()) => {},
            Err(e) => {
                return Err(e);
            },
        }
        let dma_config = DmaConfig {
            src_addr: src.data.physical_addr(),
            dst_device,
            size: src.byte_size(elem_size),
            permissions: DmaPermissions::read_only(),
        };
        self.execute_dma_with_protection(dma_config)
    }

    /// Records a transfer under the next identifier; a writable and
    /// executable transfer is refused.
    fn execute_dma_with_protection(&mut self, config: DmaConfig) -> (r: Result<DmaTransferId, DmaError>)
        requires
            old(self).wf(),
            old(self).next_id() < u64::MAX,
        ensures
            final(self).wf(),
            final(self).checker() == old(self).checker(),
            r is Err <==> (config.permissions.write && config.permissions.execute),
            r is Err ==> r == Err::<DmaTransferId, DmaError>(DmaError::WxViolation) && final(self).transfers()
                == old(self).transfers(),
            r matches Ok(id) ==> id == DmaTransferId(old(self).next_id()) && final(self).next_id() == old(self).next_id() + 1 && final(self).transfers() == old(self).transfers().push(
                (id, DmaTransfer { config, state: DmaTransferState::Pending, start_time: 0 }),
            ),
    {
        if config.permissions.write && config.permissions.execute {
            return Err(DmaError::WxViolation);
        }
        let transfer_id = DmaTransferId(self.next_transfer_id);
        self.next_transfer_id = self.next_transfer_id + 1;
        let transfer = DmaTransfer {
            config,
            state: DmaTransferState::Pending,
            start_time: self.get_current_timestamp(),
        };
        let ghost pre = self.active_transfers@;
        self.active_transfers.push((transfer_id, transfer));
        proof {
            let t = self.active_transfers@;
            assert(pre == old(self).transfers());
            assert forall|i: int| 0 <= i < t.len() implies (#[trigger] t[i]).0.0 < self.next_id() by {
                if i < pre.len() {
                    assert(t[i] == old(self).transfers()[i]);
                }
            }
            assert forall|i: int, j: int| 0 <= i < j < t.len() implies (#[trigger] t[i]).0.0 < (#[trigger] t[j]).0.0 by {
                assert(t[i] == old(self).transfers()[i]);
                assert(old(self).transfers()[i].0.0 < old(self).next_id());
                if j < pre.len() {
                    assert(t[j] == old(self).transfers()[j]);
                }
            }
            assert(self.transfers() == t);
        }
        Ok(transfer_id)
    }

    fn find_transfer(&self, transfer_id: DmaTransferId) -> (r: Option<usize>)
        ensures
            r is None ==> forall|i: int| 0 <= i < self.transfers().len() ==> (#[trigger] self.transfers()[i]).0 != transfer_id,
            r matches Some(i) ==> i < self.transfers().len() && self.transfers()[i as int].0 == transfer_id,
    {
        let mut i: usize = 0;
        while i < self.active_transfers.len()
            invariant
                i <= self.transfers().len(),
                forall|k: int| 0 <= k < i ==> (#[trigger] self.transfers()[k]).0 != transfer_id,
            decreases self.transfers().len() - i,
        {
            if self.active_transfers[i].0 == transfer_id {
                return Some(i);
            }
            i = i + 1;
        }
        None
    }

    /// State of transfer `transfer_id`, if it was started.
    pub fn get_transfer_status(&self, transfer_id: DmaTransferId) -> (r: Option<DmaTransferState>)
        requires
            self.wf(),
        ensures
            r is None <==> forall|i: int| 0 <= i < self.transfers().len() ==> (#[trigger] self.transfers()[i]).0 != transfer_id,
            r matches Some(st) ==> exists|i: int|
                0 <= i < self.transfers().len() && (#[trigger] self.transfers()[i]).0 == transfer_id
                    && self.transfers()[i].1.state == st,
    {
        match self.find_transfer(transfer_id) {
            Some(i) => Some(self.active_transfers[i].1.state),
            None => None,
        }
    }

    /// Marks transfer `transfer_id` completed; an unknown identifier is an
    /// error.
    pub fn wait_for_completion(&mut self, transfer_id: DmaTransferId) -> (r: Result<(), DmaError>)
        requires
            old(self).wf(),
        ensures
            final(self).wf(),
            r is Err <==> forall|i: int| 0 <= i < old(self).transfers().len() ==> (#[trigger] old(self).transfers()[i]).0 != transfer_id,
            r is Err ==> r == Err::<(), DmaError>(DmaError::InvalidTransferId) && final(self).transfers() == old(self).transfers(),
            r is Ok ==> exists|i: int|
                0 <= i < old(self).transfers().len() && (#[trigger] old(self).transfers()[i]).0 == transfer_id
                    && final(self).transfers() == old(self).transfers().update(
                    i,
                    (transfer_id, DmaTransfer {
                        config: old(self).transfers()[i].1.config,
                        state: DmaTransferState::Completed,
                        start_time: old(self).transfers()[i].1.start_time,
                    }),
                ),
    {
        match self.find_transfer(transfer_id) {
            Some(i) => {
                let (id, t) = self.active_transfers[i];
                let done = DmaTransfer { config: t.config, state: DmaTransferState::Completed, start_time: t.start_time };
                self.active_transfers.set(i, (id, done));
                Ok(())
            },
            None => Err(DmaError::InvalidTransferId),
        }
    }

    fn get_current_timestamp(&self) -> (r: u64)
        ensures
            r == 0,
    {
        0
    }

    /// Protects a GPU memory region.
    pub fn register_gpu_region(&mut self, device: DeviceId, range: Range<u64>, capability_id: Option<u64>) -> (r: Result<(), DmaError>)
        requires
            old(self).wf(),
            old(self).checker().next_generation() * 0xDEADBEEF <= u64::MAX,
            old(self).checker().next_generation() * 0xCAFEBABE <= u64::MAX,
            old(self).checker().next_generation() < u64::MAX,
        ensures
            r is Ok,
            final(self).wf(),
            final(self).transfers() == old(self).transfers(),
            final(self).checker().regions().drop_last() == old(self).checker().regions(),
            final(self).checker().regions().len() == old(self).checker().regions().len() + 1,
            final(self).checker().regions().last().0 == device,
            final(self).checker().regions().last().1.range == range,
    {
        let r = self.bounds_checker.register_gpu_region(device, range, capability_id);
        proof {
            assert(self.transfers() == old(self).transfers());
            assert(self.uvm() == old(self).uvm());
            assert(self.next_id() == old(self).next_id());
        }
        r
    }
}

/// A block of tensor memory.
#[derive(Clone, Copy, Debug)]
pub struct MemoryBlock {
    pub physical_addr: u64,
    pub virtual_addr: u64,
    pub size: usize,
    pub allocated_at: u64,
}

/// Base address of the tensor memory of every device.
pub const TENSOR_BASE: u64 = 0x8000_0000;
/// Size of each device's tensor pool (1 GiB).
pub const TENSOR_POOL_SIZE: usize = 1024 * 1024 * 1024;

/// Tensor memory of one device: free blocks first fit, then a bump region.
#[derive(Debug)]
pub struct TensorMemoryPool {
    free_blocks: Vec<MemoryBlock>,
    total_size: usize,
    used_size: usize,
}

impl TensorMemoryPool {
    pub closed spec fn free(&self) -> Seq<MemoryBlock> {
        self.free_blocks@
    }

    pub closed spec fn total(&self) -> usize {
        self.total_size
    }

    pub closed spec fn used(&self) -> usize {
        self.used_size
    }

    /// Nothing returns blocks to a pool, so its free list stays empty; its
    /// usage stays within its 1 GiB.
    pub open spec fn wf(&self) -> bool {
        &&& self.free().len() == 0
        &&& self.total() == TENSOR_POOL_SIZE
        &&& self.used() <= self.total()
    }
}

/// Tensor memory of every device, and the DMA manager.
pub struct AIMemoryAllocator {
    memory_pools: Vec<(DeviceId, TensorMemoryPool)>,
    dma_manager: AIDmaManager,
}

/// Usage of `device`'s pool, zero before its first allocation.
pub open spec fn pool_usage(pools: Seq<(DeviceId, TensorMemoryPool)>, device: DeviceId) -> usize {
    if exists|i: int| 0 <= i < pools.len() && (#[trigger] pools[i]).0 == device {
        pools[choose|i: int| 0 <= i < pools.len() && (#[trigger] pools[i]).0 == device].1.used()
    } else {
        0
    }
}

/// Devices of `pools` are pairwise distinct.
pub open spec fn devices_unique(pools: Seq<(DeviceId, TensorMemoryPool)>) -> bool {
    forall|i: int, j: int| 0 <= i < j < pools.len() ==> (#[trigger] pools[i]).0 != (#[trigger] pools[j]).0
}

impl AIMemoryAllocator {
    pub closed spec fn pools(&self) -> Seq<(DeviceId, TensorMemoryPool)> {
        self.memory_pools@
    }

    pub closed spec fn manager(&self) -> AIDmaManager {
        self.dma_manager
    }

    pub open spec fn wf(&self) -> bool {
        &&& devices_unique(self.pools())
        &&& forall|i: int| 0 <= i < self.pools().len() ==> (#[trigger] self.pools()[i]).1.wf()
    }

    /// No pools yet.
    pub fn new() -> (r: Self)
        ensures
            r.wf(),
            r.pools().len() == 0,
            r.manager().wf(),
    {
        AIMemoryAllocator { memory_pools: Vec::new(), dma_manager: AIDmaManager::new() }
    }

    /// Index of `device`'s pool, created (1 GiB, empty) when missing.
    fn pool_index(&mut self, device: DeviceId) -> (r: usize)
        requires
            old(self).wf(),
        ensures
            final(self).wf(),
            r < final(self).pools().len(),
            final(self).pools()[r as int].0 == device,
            final(self).pools()[r as int].1.used() == pool_usage(old(self).pools(), device),
            final(self).manager() == old(self).manager(),
            forall|d: DeviceId| d != device ==> #[trigger] pool_usage(final(self).pools(), d) == pool_usage(old(self).pools(), d),
    {
        let mut i: usize = 0;
        while i < self.memory_pools.len()
            invariant
                *self == *old(self),
                self.wf(),
                i <= self.pools().len(),
                forall|k: int| 0 <= k < i ==> (#[trigger] self.pools()[k]).0 != device,
            decreases self.pools().len() - i,
        {
            if self.memory_pools[i].0 == device {
                proof {
                    let s = self.pools();
                    assert(s[i as int].0 == device);
                    let c = choose|k: int| 0 <= k < s.len() && (#[trigger] s[k]).0 == device;
                    if c != i {
                        if c < i {
                            assert(s[c].0 != s[i as int].0);
                        } else {
                            assert(s[i as int].0 != s[c].0);
                        }
                    }
                }
                return i;
            }
            i = i + 1;
        }
        let ghost pre = self.memory_pools@;
        self.memory_pools.push(
            (device, TensorMemoryPool { free_blocks: Vec::new(), total_size: TENSOR_POOL_SIZE, used_size: 0 }),
        );
        proof {
            let s = self.pools();
            assert(s.drop_last() =~= pre);
            assert forall|k: int| 0 <= k < s.len() implies (#[trigger] s[k]).1.wf() by {
                if k < pre.len() {
                    assert(s[k] == pre[k]);
                }
            }
            assert forall|a: int, b: int| 0 <= a < b < s.len() implies (#[trigger] s[a]).0 != (#[trigger] s[b]).0 by {
                if b < pre.len() {
                    assert(pre[a].0 != pre[b].0);
                }
            }
            assert forall|d: DeviceId| d != device implies #[trigger] pool_usage(s, d) == pool_usage(pre, d) by {
                if exists|k: int| 0 <= k < pre.len() && (#[trigger] pre[k]).0 == d {
                    let k = choose|k: int| 0 <= k < pre.len() && (#[trigger] pre[k]).0 == d;
                    assert(s[k] == pre[k]);
                    let c = choose|k2: int| 0 <= k2 < s.len() && (#[trigger] s[k2]).0 == d;
                    if c != k {
                        if c < k {
                            assert(s[c].0 != s[k].0);
                        } else {
                            assert(s[k].0 != s[c].0);
                        }
                    }
                } else {
                    assert forall|k: int| 0 <= k < s.len() implies (#[trigger] s[k]).0 != d by {
                        if k < pre.len() {
                            assert(s[k] == pre[k]);
                        }
                    }
                }
            }
        }
        i
    }

    /// A block of `size` bytes for `device`: the first free block large
    /// enough, else fresh memory right after what the device's pool used,
    /// else out of memory.
    pub fn allocate_block(&mut self, device: DeviceId, size: usize) -> (r: Result<MemoryBlock, DmaError>)
        requires
            old(self).wf(),
        ensures
            final(self).wf(),
            final(self).manager() == old(self).manager(),
            r is Ok <==> pool_usage(old(self).pools(), device) + size <= TENSOR_POOL_SIZE,
            r is Err ==> r == Err::<MemoryBlock, DmaError>(DmaError::HardwareError),
            r matches Ok(b) ==> b == (MemoryBlock {
                physical_addr: (TENSOR_BASE + pool_usage(old(self).pools(), device)) as u64,
                virtual_addr: (TENSOR_BASE + pool_usage(old(self).pools(), device)) as u64,
                size,
                allocated_at: 0,
            }),
            r is Ok ==> pool_usage(final(self).pools(), device) == pool_usage(old(self).pools(), device) + size,
            r is Err ==> pool_usage(final(self).pools(), device) == pool_usage(old(self).pools(), device),
            forall|d: DeviceId| d != device ==> #[trigger] pool_usage(final(self).pools(), d) == pool_usage(old(self).pools(), d),
    {
        let idx = self.pool_index(device);
        let ghost mid = self.memory_pools@;
        let (dev, mut pool) = self.memory_pools.remove(idx);
        let mut j: usize = 0;
        while j < pool.free_blocks.len()
            invariant
                j <= pool.free_blocks@.len(),
                pool.free_blocks@.len() == 0,
            decreases pool.free_blocks@.len() - j,
        {
            j = j + 1;
        }
        let result = if size <= pool.total_size - pool.used_size {
            let base_addr = TENSOR_BASE + pool.used_size as u64;
            pool.used_size = pool.used_size + size;
            Ok(MemoryBlock { physical_addr: base_addr, virtual_addr: base_addr, size, allocated_at: 0 })
        } else {
            Err(DmaError::HardwareError)
        };
        self.memory_pools.insert(idx, (dev, pool));
        proof {
            let s = self.pools();
            assert forall|i: int| 0 <= i < s.len() && i != idx implies #[trigger] s[i] == mid[i] by {}
            assert forall|a: int, b: int| 0 <= a < b < s.len() implies (#[trigger] s[a]).0 != (#[trigger] s[b]).0 by {
                assert(mid[a].0 != mid[b].0);
            }
            assert forall|i: int| 0 <= i < s.len() implies (#[trigger] s[i]).1.wf() by {
                if i != idx {
                    assert(s[i] == mid[i]);
                }
            }
            assert forall|d: DeviceId| #[trigger] pool_usage(s, d) == (if d == device {
                s[idx as int].1.used()
            } else {
                pool_usage(mid, d)
            }) by {
                if exists|k: int| 0 <= k < mid.len() && (#[trigger] mid[k]).0 == d {
                    let k = choose|k: int| 0 <= k < mid.len() && (#[trigger] mid[k]).0 == d;
                    assert(s[k].0 == d);
                    let c = choose|k2: int| 0 <= k2 < s.len() && (#[trigger] s[k2]).0 == d;
                    if c != k {
                        if c < k {
                            assert(s[c].0 != s[k].0);
                        } else {
                            assert(s[k].0 != s[c].0);
                        }
                    }
                    if d == device {
                        if k != idx {
                            if k < idx {
                                assert(mid[k].0 != mid[idx as int].0);
                            } else {
                                assert(mid[idx as int].0 != mid[k].0);
                            }
                        }
                    }
                } else {
                    assert(mid[idx as int].0 == device);
                    assert forall|k: int| 0 <= k < s.len() implies (#[trigger] s[k]).0 != d by {
                        assert(s[k].0 == mid[k].0);
                    }
                }
            }
        }
        result
    }

    /// The DMA manager.
    pub fn dma_manager(&mut self) -> (r: &mut AIDmaManager)
        ensures
            *r == old(self).manager(),
            final(self).pools() == old(self).pools(),
            final(self).manager() == *final(r),
    {
        &mut self.dma_manager
    }
}

/// Sets up AI memory safety; there is nothing that can fail.
pub fn init_ai_memory_safety() -> (r: Result<(), &'static str>)
    ensures
        r is Ok,
{
    Ok(())
}

} // verus!
