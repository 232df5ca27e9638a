//! Bitmap page allocator for Neural Engine memory: one bit per page, set
//! while the page is allocated; single pages go to the lowest free page,
//! page runs to the first aligned free run.

use vstd::prelude::*;

verus! {

/// Allocation result.
#[derive(Clone, Copy, PartialEq, Eq, Structural, Debug)]
pub struct AllocResult {
    pub phys_addr: u64,
    pub size_bytes: usize,
    pub start_page: usize,
    pub page_count: usize,
}

/// Allocation errors.
#[derive(Clone, Copy, PartialEq, Eq, Structural, Debug)]
pub enum AllocError {
    OutOfMemory,
    InvalidAlignment,
    InvalidSize,
    InternalError,
}

/// Bitmap allocator statistics.
#[derive(Clone, Copy, Debug)]
pub struct BitmapStats {
    pub total_pages: usize,
    pub allocated_pages: usize,
    pub free_pages: usize,
    pub utilization_bp: u32,
    pub fragmentation_estimate: u32,
}

/// Run of `k` low bits, as the allocator builds it.
pub open spec fn low_mask(k: u32) -> u64 {
    if k == 64 {
        !0u64
    } else {
        ((1u64 << (k as u64)) - 1) as u64
    }
}

/// Bit `b` of `w`.
pub open spec fn bit(w: u64, b: int) -> bool {
    (w >> (b as u64)) & 1u64 == 1u64
}

/// `x` is a power of two.
pub open spec fn is_pow2(x: usize) -> bool {
    x > 0 && x & ((x - 1) as usize) == 0
}

/// Bit manipulation helpers.
pub struct BitOps;

impl BitOps {
    /// First position of `k` consecutive clear bits in `word` (as the
    /// mask of `k` low bits shifted there), scanning upwards.
    pub fn find_run_in_word(word: u64, k: u32) -> (r: Option<u32>)
        ensures
            (k == 0 || k > 64) ==> r is None,
            r matches Some(s) ==> 0 < k <= 64 && s <= 64 - k && word & (low_mask(k) << (s as u64)) == 0
                && forall|t: u32| t < s ==> #[trigger] (word & (low_mask(k) << (t as u64))) != 0,
            (0 < k <= 64 && r is None) ==> forall|t: u32| t <= 64 - k ==> #[trigger] (word & (low_mask(k) << (t as u64))) != 0,
    {
        if k == 0 || k > 64 {
            return None;
        }
        let mask: u64 = if k == 64 {
            !0u64
        } else {
            let kk = k as u64;
            assert(kk < 64 ==> (1u64 << kk) >= 1) by (bit_vector);
            (1u64 << kk) - 1
        };
        let mut start: u32 = 0;
        while start <= 64 - k
            invariant
                0 < k <= 64,
                mask == low_mask(k),
                start <= 65 - k,
                forall|t: u32| t < start ==> #[trigger] (word & (low_mask(k) << (t as u64))) != 0,
            decreases 65 - k - start,
        {
            let shifted_mask = mask << (start as u64);
            if (word & shifted_mask) == 0 {
                return Some(start);
            }
            start = start + 1;
        }
        None
    }

    /// Mask of `k` bits from `start`; zero when empty or past bit 63.
    pub fn create_mask(start: u32, k: u32) -> (r: u64)
        ensures
            (k == 0 || start + k > 64) ==> r == 0,
            !(k == 0 || start + k > 64) ==> r == low_mask(k) << (start as u64),
    {
        if k == 0 || start as u64 + k as u64 > 64 {
            return 0;
        }
        let mask: u64 = if k == 64 {
            !0u64
        } else {
            let kk = k as u64;
            assert(kk < 64 ==> (1u64 << kk) >= 1) by (bit_vector);
            (1u64 << kk) - 1
        };
        mask << (start as u64)
    }

    /// Leading zero bits of `word`.
    pub fn leading_zeros(word: u64) -> (r: u32)
        ensures
            r as int == vstd::std_specs::bits::u64_leading_zeros(word),
    {
        word.leading_zeros()
    }

    /// Trailing zero bits of `word`.
    pub fn trailing_zeros(word: u64) -> (r: u32)
        ensures
            r == vstd::std_specs::bits::u64_trailing_zeros(word),
    {
        word.trailing_zeros()
    }
}

proof fn lemma_bit_set(w: u64, b: u64, c: u64)
    requires
        b < 64,
        c < 64,
    ensures
        ((w | (1u64 << b)) >> c) & 1u64 == (if c == b {
            1u64
        } else {
            (w >> c) & 1u64
        }),
{
    assert(((w | (1u64 << b)) >> c) & 1u64 == (if c == b {
        1u64
    } else {
        (w >> c) & 1u64
    })) by (bit_vector)
        requires
            b < 64,
            c < 64,
    ;
}

proof fn lemma_bit_clear(w: u64, b: u64, c: u64)
    requires
        b < 64,
        c < 64,
    ensures
        ((w & !(1u64 << b)) >> c) & 1u64 == (if c == b {
            0u64
        } else {
            (w >> c) & 1u64
        }),
{
    assert(((w & !(1u64 << b)) >> c) & 1u64 == (if c == b {
        0u64
    } else {
        (w >> c) & 1u64
    })) by (bit_vector)
        requires
            b < 64,
            c < 64,
    ;
}

proof fn lemma_bit_test(w: u64, b: u64)
    requires
        b < 64,
    ensures
        ((w & (1u64 << b)) != 0) == ((w >> b) & 1u64 == 1u64),
        (w >> b) & 1u64 == 0u64 || (w >> b) & 1u64 == 1u64,
{
    assert(((w & (1u64 << b)) != 0) == ((w >> b) & 1u64 == 1u64)) by (bit_vector)
        requires
            b < 64,
    ;
    assert((w >> b) & 1u64 == 0u64 || (w >> b) & 1u64 == 1u64) by (bit_vector);
}

proof fn lemma_not_bit(w: u64, b: u64)
    requires
        b < 64,
    ensures
        (((!w) >> b) & 1u64 == 1u64) == ((w >> b) & 1u64 == 0u64),
        (((!w) >> b) & 1u64 == 0u64) == ((w >> b) & 1u64 == 1u64),
{
    assert((((!w) >> b) & 1u64 == 1u64) == ((w >> b) & 1u64 == 0u64)) by (bit_vector)
        requires
            b < 64,
    ;
    assert((((!w) >> b) & 1u64 == 0u64) == ((w >> b) & 1u64 == 1u64)) by (bit_vector)
        requires
            b < 64,
    ;
}

proof fn lemma_bit_or(w: u64, m: u64, c: u64)
    requires
        c < 64,
    ensures
        ((w | m) >> c) & 1u64 == 1u64 <==> ((w >> c) & 1u64 == 1u64 || (m >> c) & 1u64 == 1u64),
{
    assert(((w | m) >> c) & 1u64 == 1u64 <==> ((w >> c) & 1u64 == 1u64 || (m >> c) & 1u64 == 1u64)) by (bit_vector)
        requires
            c < 64,
    ;
}

proof fn lemma_bit_and(w: u64, m: u64, c: u64)
    requires
        c < 64,
    ensures
        ((w & m) >> c) & 1u64 == 1u64 <==> ((w >> c) & 1u64 == 1u64 && (m >> c) & 1u64 == 1u64),
        ((w & m) >> c) & 1u64 == 0u64 || ((w & m) >> c) & 1u64 == 1u64,
{
    assert(((w & m) >> c) & 1u64 == 1u64 <==> ((w >> c) & 1u64 == 1u64 && (m >> c) & 1u64 == 1u64)) by (bit_vector)
        requires
            c < 64,
    ;
    assert(((w & m) >> c) & 1u64 == 0u64 || ((w & m) >> c) & 1u64 == 1u64) by (bit_vector);
}

proof fn lemma_single_bit(b: u64, c: u64)
    requires
        b < 64,
        c < 64,
    ensures
        ((1u64 << b) >> c) & 1u64 == 1u64 <==> c == b,
{
    assert(((1u64 << b) >> c) & 1u64 == 1u64 <==> c == b) by (bit_vector)
        requires
            b < 64,
            c < 64,
    ;
}

proof fn lemma_bit_nonzero(x: u64, c: u64)
    requires
        c < 64,
        (x >> c) & 1u64 == 1u64,
    ensures
        x != 0,
{
    assert(x != 0) by (bit_vector)
        requires
            c < 64,
            (x >> c) & 1u64 == 1u64,
    ;
}

/// A non-zero word has a set bit.
proof fn lemma_nonzero_has_bit(x: u64)
    requires
        x != 0,
    ensures
        exists|c: int| 0 <= c < 64 && #[trigger] bit(x, c),
{
    if !exists|c: int| 0 <= c < 64 && #[trigger] bit(x, c) {
        assert forall|c: u64| c < 64 implies #[trigger] ((x >> c) & 1u64) == 0u64 by {
            assert(!bit(x, c as int));
            assert((x >> c) & 1u64 == 0u64 || (x >> c) & 1u64 == 1u64) by (bit_vector);
        }
        lemma_zero_word(x);
    }
}

/// A word with no bit set is zero.
proof fn lemma_zero_word(y: u64)
    requires
        forall|c: u64| c < 64 ==> #[trigger] ((y >> c) & 1u64) == 0u64,
    ensures
        y == 0,
{
    assert((y >> 0u64) & 1u64 == 0u64);
    assert((y >> 1u64) & 1u64 == 0u64);
    assert((y >> 2u64) & 1u64 == 0u64);
    assert((y >> 3u64) & 1u64 == 0u64);
    assert((y >> 4u64) & 1u64 == 0u64);
    assert((y >> 5u64) & 1u64 == 0u64);
    assert((y >> 6u64) & 1u64 == 0u64);
    assert((y >> 7u64) & 1u64 == 0u64);
    assert((y >> 8u64) & 1u64 == 0u64);
    assert((y >> 9u64) & 1u64 == 0u64);
    assert((y >> 10u64) & 1u64 == 0u64);
    assert((y >> 11u64) & 1u64 == 0u64);
    assert((y >> 12u64) & 1u64 == 0u64);
    assert((y >> 13u64) & 1u64 == 0u64);
    assert((y >> 14u64) & 1u64 == 0u64);
    assert((y >> 15u64) & 1u64 == 0u64);
    assert((y >> 16u64) & 1u64 == 0u64);
    assert((y >> 17u64) & 1u64 == 0u64);
    assert((y >> 18u64) & 1u64 == 0u64);
    assert((y >> 19u64) & 1u64 == 0u64);
    assert((y >> 20u64) & 1u64 == 0u64);
    assert((y >> 21u64) & 1u64 == 0u64);
    assert((y >> 22u64) & 1u64 == 0u64);
    assert((y >> 23u64) & 1u64 == 0u64);
    assert((y >> 24u64) & 1u64 == 0u64);
    assert((y >> 25u64) & 1u64 == 0u64);
    assert((y >> 26u64) & 1u64 == 0u64);
    assert((y >> 27u64) & 1u64 == 0u64);
    assert((y >> 28u64) & 1u64 == 0u64);
    assert((y >> 29u64) & 1u64 == 0u64);
    assert((y >> 30u64) & 1u64 == 0u64);
    assert((y >> 31u64) & 1u64 == 0u64);
    assert((y >> 32u64) & 1u64 == 0u64);
    assert((y >> 33u64) & 1u64 == 0u64);
    assert((y >> 34u64) & 1u64 == 0u64);
    assert((y >> 35u64) & 1u64 == 0u64);
    assert((y >> 36u64) & 1u64 == 0u64);
    assert((y >> 37u64) & 1u64 == 0u64);
    assert((y >> 38u64) & 1u64 == 0u64);
    assert((y >> 39u64) & 1u64 == 0u64);
    assert((y >> 40u64) & 1u64 == 0u64);
    assert((y >> 41u64) & 1u64 == 0u64);
    assert((y >> 42u64) & 1u64 == 0u64);
    assert((y >> 43u64) & 1u64 == 0u64);
    assert((y >> 44u64) & 1u64 == 0u64);
    assert((y >> 45u64) & 1u64 == 0u64);
    assert((y >> 46u64) & 1u64 == 0u64);
    assert((y >> 47u64) & 1u64 == 0u64);
    assert((y >> 48u64) & 1u64 == 0u64);
    assert((y >> 49u64) & 1u64 == 0u64);
    assert((y >> 50u64) & 1u64 == 0u64);
    assert((y >> 51u64) & 1u64 == 0u64);
    assert((y >> 52u64) & 1u64 == 0u64);
    assert((y >> 53u64) & 1u64 == 0u64);
    assert((y >> 54u64) & 1u64 == 0u64);
    assert((y >> 55u64) & 1u64 == 0u64);
    assert((y >> 56u64) & 1u64 == 0u64);
    assert((y >> 57u64) & 1u64 == 0u64);
    assert((y >> 58u64) & 1u64 == 0u64);
    assert((y >> 59u64) & 1u64 == 0u64);
    assert((y >> 60u64) & 1u64 == 0u64);
    assert((y >> 61u64) & 1u64 == 0u64);
    assert((y >> 62u64) & 1u64 == 0u64);
    assert((y >> 63u64) & 1u64 == 0u64);
    assert(y == 0) by (bit_vector)
        requires
            (y >> 0u64) & 1u64 == 0u64,
            (y >> 1u64) & 1u64 == 0u64,
            (y >> 2u64) & 1u64 == 0u64,
            (y >> 3u64) & 1u64 == 0u64,
            (y >> 4u64) & 1u64 == 0u64,
            (y >> 5u64) & 1u64 == 0u64,
            (y >> 6u64) & 1u64 == 0u64,
            (y >> 7u64) & 1u64 == 0u64,
            (y >> 8u64) & 1u64 == 0u64,
            (y >> 9u64) & 1u64 == 0u64,
            (y >> 10u64) & 1u64 == 0u64,
            (y >> 11u64) & 1u64 == 0u64,
            (y >> 12u64) & 1u64 == 0u64,
            (y >> 13u64) & 1u64 == 0u64,
            (y >> 14u64) & 1u64 == 0u64,
            (y >> 15u64) & 1u64 == 0u64,
            (y >> 16u64) & 1u64 == 0u64,
            (y >> 17u64) & 1u64 == 0u64,
            (y >> 18u64) & 1u64 == 0u64,
            (y >> 19u64) & 1u64 == 0u64,
            (y >> 20u64) & 1u64 == 0u64,
            (y >> 21u64) & 1u64 == 0u64,
            (y >> 22u64) & 1u64 == 0u64,
            (y >> 23u64) & 1u64 == 0u64,
            (y >> 24u64) & 1u64 == 0u64,
            (y >> 25u64) & 1u64 == 0u64,
            (y >> 26u64) & 1u64 == 0u64,
            (y >> 27u64) & 1u64 == 0u64,
            (y >> 28u64) & 1u64 == 0u64,
            (y >> 29u64) & 1u64 == 0u64,
            (y >> 30u64) & 1u64 == 0u64,
            (y >> 31u64) & 1u64 == 0u64,
            (y >> 32u64) & 1u64 == 0u64,
            (y >> 33u64) & 1u64 == 0u64,
            (y >> 34u64) & 1u64 == 0u64,
            (y >> 35u64) & 1u64 == 0u64,
            (y >> 36u64) & 1u64 == 0u64,
            (y >> 37u64) & 1u64 == 0u64,
            (y >> 38u64) & 1u64 == 0u64,
            (y >> 39u64) & 1u64 == 0u64,
            (y >> 40u64) & 1u64 == 0u64,
            (y >> 41u64) & 1u64 == 0u64,
            (y >> 42u64) & 1u64 == 0u64,
            (y >> 43u64) & 1u64 == 0u64,
            (y >> 44u64) & 1u64 == 0u64,
            (y >> 45u64) & 1u64 == 0u64,
            (y >> 46u64) & 1u64 == 0u64,
            (y >> 47u64) & 1u64 == 0u64,
            (y >> 48u64) & 1u64 == 0u64,
            (y >> 49u64) & 1u64 == 0u64,
            (y >> 50u64) & 1u64 == 0u64,
            (y >> 51u64) & 1u64 == 0u64,
            (y >> 52u64) & 1u64 == 0u64,
            (y >> 53u64) & 1u64 == 0u64,
            (y >> 54u64) & 1u64 == 0u64,
            (y >> 55u64) & 1u64 == 0u64,
            (y >> 56u64) & 1u64 == 0u64,
            (y >> 57u64) & 1u64 == 0u64,
            (y >> 58u64) & 1u64 == 0u64,
            (y >> 59u64) & 1u64 == 0u64,
            (y >> 60u64) & 1u64 == 0u64,
            (y >> 61u64) & 1u64 == 0u64,
            (y >> 62u64) & 1u64 == 0u64,
            (y >> 63u64) & 1u64 == 0u64,
    ;
}

/// Two words without a common set bit have a zero intersection, and the
/// other way round.
proof fn lemma_disjoint_bits(w: u64, m: u64)
    ensures
        (w & m == 0) <==> forall|c: int| 0 <= c < 64 ==> !(#[trigger] bit(w, c) && bit(m, c)),
{
    if w & m == 0 {
        assert forall|c: int| 0 <= c < 64 implies !(#[trigger] bit(w, c) && bit(m, c)) by {
            let cc = c as u64;
            lemma_bit_and(w, m, cc);
            assert(((w & m) >> cc) & 1u64 == 0u64) by (bit_vector)
                requires
                    w & m == 0,
            ;
        }
    }
    if forall|c: int| 0 <= c < 64 ==> !(#[trigger] bit(w, c) && bit(m, c)) {
        let y = w & m;
        assert forall|c: u64| c < 64 implies #[trigger] ((y >> c) & 1u64) == 0u64 by {
            lemma_bit_and(w, m, c);
            assert(!(bit(w, c as int) && bit(m, c as int)));
        }
        lemma_zero_word(y);
    }
}

/// Page `p` is marked allocated in `bm`.
pub open spec fn page_used(bm: Seq<u64>, p: int) -> bool {
    bit(bm[p / 64], p % 64)
}

/// Pages `start..start + n` are all free.
pub open spec fn range_free(bm: Seq<u64>, start: int, n: int) -> bool {
    forall|p: int| start <= p < start + n ==> !#[trigger] page_used(bm, p)
}

/// Pages `start..start + n` are all allocated.
pub open spec fn range_used(bm: Seq<u64>, start: int, n: int) -> bool {
    forall|p: int| start <= p < start + n ==> #[trigger] page_used(bm, p)
}

/// `after` is `before` with pages `start..start + n` set to `used`.
pub open spec fn marked(before: Seq<u64>, after: Seq<u64>, start: int, n: int, used: bool) -> bool {
    &&& after.len() == before.len()
    &&& forall|p: int|
        0 <= p < 64 * before.len() ==> #[trigger] page_used(after, p) == (if start <= p < start + n {
            used
        } else {
            page_used(before, p)
        })
}

/// Lowest page whose bit is clear in the whole bitmap, if any.
pub open spec fn lowest_free(bm: Seq<u64>) -> Option<int> {
    if exists|p: int| 0 <= p < 64 * bm.len() && !#[trigger] page_used(bm, p) {
        Some(
            choose|p: int|
                0 <= p < 64 * bm.len() && !#[trigger] page_used(bm, p) && forall|q: int|
                    0 <= q < p ==> #[trigger] page_used(bm, q),
        )
    } else {
        None
    }
}

/// `s` is an aligned start of a free run of `n` pages inside `total`.
pub open spec fn fits_at(bm: Seq<u64>, total: int, n: int, align: int, s: int) -> bool {
    &&& s % align == 0
    &&& 0 <= s
    &&& s + n <= total
    &&& range_free(bm, s, n)
}

/// Number of allocated pages among the first `n`.
pub open spec fn count_used(bm: Seq<u64>, n: int) -> nat
    decreases n,
{
    if n <= 0 {
        0
    } else {
        count_used(bm, n - 1) + if page_used(bm, n - 1) {
            1nat
        } else {
            0nat
        }
    }
}

/// Number of maximal runs of free pages among the first `n`.
pub open spec fn free_runs(bm: Seq<u64>, n: int) -> nat
    decreases n,
{
    if n <= 0 {
        0
    } else {
        free_runs(bm, n - 1) + if !page_used(bm, n - 1) && (n - 1 == 0 || page_used(bm, n - 2)) {
            1nat
        } else {
            0nat
        }
    }
}

proof fn lemma_counts_bounded(bm: Seq<u64>, n: int)
    requires
        n >= 0,
    ensures
        count_used(bm, n) <= n,
        free_runs(bm, n) <= n - count_used(bm, n),
    decreases n,
{
    if n > 0 {
        lemma_counts_bounded(bm, n - 1);
    }
}

/// Index of the word that holds page `p`.
pub open spec fn page_word(p: int) -> int {
    p / 64
}

/// Some operation of `ops` is for word `w`.
pub open spec fn has_word(ops: Seq<(usize, u64)>, w: int) -> bool {
    exists|i: int| 0 <= i < ops.len() && ops[i].0 == w
}

/// Word operations `ops` mark exactly pages `start..end`: their words rise
/// strictly, each mask is non-zero, bit `c` of the mask for word `w` is
/// set exactly when page `64 * w + c` lies in the range, and every page of
/// the range has the operation for its word.
pub open spec fn ops_cover(ops: Seq<(usize, u64)>, start: int, end: int) -> bool {
    &&& forall|i: int, j: int| 0 <= i < j < ops.len() ==> #[trigger] ops[i].0 < #[trigger] ops[j].0
    &&& forall|i: int| 0 <= i < ops.len() ==> (#[trigger] ops[i]).1 != 0
    &&& forall|i: int, c: int|
        0 <= i < ops.len() && 0 <= c < 64 ==> (#[trigger] bit(ops[i].1, c) <==> start <= 64 * ops[i].0 + c < end)
    &&& forall|p: int| start <= p < end ==> #[trigger] has_word(ops, page_word(p))
}

/// Every operation names a word of `bm` whose masked bits are clear.
pub open spec fn ops_free(bm: Seq<u64>, ops: Seq<(usize, u64)>) -> bool {
    forall|i: int| 0 <= i < ops.len() ==> (#[trigger] ops[i]).0 < bm.len() && bm[ops[i].0 as int] & ops[i].1 == 0
}

/// `after` is `before` with the mask of every operation set in its word.
pub open spec fn ops_applied(before: Seq<u64>, after: Seq<u64>, ops: Seq<(usize, u64)>) -> bool {
    &&& after.len() == before.len()
    &&& forall|j: int| 0 <= j < ops.len() ==> after[(#[trigger] ops[j]).0 as int] == before[ops[j].0 as int] | ops[j].1
    &&& forall|w: int|
        0 <= w < before.len() && (forall|j: int| 0 <= j < ops.len() ==> (#[trigger] ops[j]).0 != w) ==> #[trigger] after[w]
            == before[w]
}

/// The operations of a range, with the one still being built.
pub open spec fn ops_with_current(ops: Seq<(usize, u64)>, word: usize, mask: u64) -> Seq<(usize, u64)> {
    if word == usize::MAX {
        ops
    } else {
        ops.push((word, mask))
    }
}

proof fn lemma_cover_new_word(all: Seq<(usize, u64)>, start: int, p: int, w: usize, b: u64)
    requires
        ops_cover(all, start, p),
        0 <= start <= p,
        w == p / 64,
        b == p % 64,
        all.len() > 0 ==> all.last().0 < w && all.last().0 == (p - 1) / 64 && p > start,
        all.len() == 0 ==> p == start,
    ensures
        ops_cover(all.push((w, 1u64 << b)), start, p + 1),
{
    let n = all.push((w, 1u64 << b));
    let last = all.len() as int;
    assert(n[last] == (w, 1u64 << b));
    assert forall|i: int, j: int| 0 <= i < j < n.len() implies #[trigger] n[i].0 < #[trigger] n[j].0 by {
        if j == last && i < last {
            if i < last - 1 {
                assert(all[i].0 < all[last - 1].0);
            }
        }
    }
    assert forall|i: int| 0 <= i < n.len() implies (#[trigger] n[i]).1 != 0 by {
        if i == last {
            lemma_single_bit(b, b);
            assert(n[i].1 == 1u64 << b);
            assert(((n[i].1) >> b) & 1u64 == 1u64);
            lemma_bit_nonzero(n[i].1, b);
        } else {
            assert(n[i] == all[i]);
        }
    }
    assert forall|i: int, c: int| 0 <= i < n.len() && 0 <= c < 64 implies (#[trigger] bit(n[i].1, c) <==> start <= 64
        * n[i].0 + c < p + 1) by {
        if i == last {
            lemma_single_bit(b, c as u64);
        } else {
            assert(n[i] == all[i]);
            assert(all[i].0 <= all[last - 1].0);
        }
    }
    assert forall|q: int| start <= q < p + 1 implies #[trigger] has_word(n, page_word(q)) by {
        if q == p {
            assert(n[last].0 == page_word(q));
        } else {
            assert(has_word(all, page_word(q)));
            let i = choose|i: int| 0 <= i < all.len() && all[i].0 == page_word(q);
            assert(n[i] == all[i]);
        }
    }
}

proof fn lemma_cover_same_word(all: Seq<(usize, u64)>, start: int, p: int, w: usize, m: u64, b: u64)
    requires
        ops_cover(all, start, p),
        0 <= start < p,
        all.len() > 0,
        all.last() == (w, m),
        w == p / 64,
        b == p % 64,
    ensures
        ops_cover(all.update(all.len() - 1, (w, m | (1u64 << b))), start, p + 1),
{
    let n = all.update(all.len() - 1, (w, m | (1u64 << b)));
    let last = all.len() - 1;
    assert forall|i: int, j: int| 0 <= i < j < n.len() implies #[trigger] n[i].0 < #[trigger] n[j].0 by {
        assert(all[i].0 < all[j].0);
    }
    assert forall|i: int| 0 <= i < n.len() implies (#[trigger] n[i]).1 != 0 by {
        if i == last {
            lemma_bit_set(m, b, b);
            assert(n[i].1 == m | (1u64 << b));
            assert(((n[i].1) >> b) & 1u64 == 1u64);
            lemma_bit_nonzero(n[i].1, b);
        } else {
            assert(n[i] == all[i]);
        }
    }
    assert forall|i: int, c: int| 0 <= i < n.len() && 0 <= c < 64 implies (#[trigger] bit(n[i].1, c) <==> start <= 64
        * n[i].0 + c < p + 1) by {
        if i == last {
            lemma_bit_set(m, b, c as u64);
            assert(bit(all[last].1, c) <==> start <= 64 * all[last].0 + c < p);
        } else {
            assert(n[i] == all[i]);
            assert(all[i].0 < all[last].0);
            assert(bit(all[i].1, c) <==> start <= 64 * all[i].0 + c < p);
        }
    }
    assert forall|q: int| start <= q < p + 1 implies #[trigger] has_word(n, page_word(q)) by {
        if q == p {
            assert(0 <= last < n.len() && n[last].0 == page_word(q));
        } else {
            assert(has_word(all, page_word(q)));
            let i = choose|i: int| 0 <= i < all.len() && all[i].0 == page_word(q);
            assert(n[i].0 == all[i].0);
            assert(0 <= i < n.len() && n[i].0 == page_word(q));
        }
    }
    assert(ops_cover(n, start, p + 1));
}

/// Operations that mark a range can be applied exactly when the range is
/// free.
proof fn lemma_ops_free(bm: Seq<u64>, ops: Seq<(usize, u64)>, start: int, end: int)
    requires
        ops_cover(ops, start, end),
        0 <= start,
        end <= 64 * bm.len(),
    ensures
        ops_free(bm, ops) <==> range_free(bm, start, end - start),
{
    if range_free(bm, start, end - start) {
        assert forall|i: int| 0 <= i < ops.len() implies (#[trigger] ops[i]).0 < bm.len() && bm[ops[i].0 as int] & ops[i].1
            == 0 by {
            let w = ops[i].0 as int;
            lemma_nonzero_has_bit(ops[i].1);
            let c0 = choose|c: int| 0 <= c < 64 && #[trigger] bit(ops[i].1, c);
            assert(bit(ops[i].1, c0));
            assert(start <= 64 * w + c0 < end);
            assert forall|c: int| 0 <= c < 64 implies !(#[trigger] bit(bm[w], c) && bit(ops[i].1, c)) by {
                if bit(ops[i].1, c) {
                    let q = 64 * w + c;
                    assert(q / 64 == w && q % 64 == c);
                    assert(!page_used(bm, q));
                }
            }
            lemma_disjoint_bits(bm[w], ops[i].1);
        }
    }
    if ops_free(bm, ops) {
        assert forall|q: int| start <= q < start + (end - start) implies !#[trigger] page_used(bm, q) by {
            assert(has_word(ops, page_word(q)));
            let i = choose|i: int| 0 <= i < ops.len() && ops[i].0 == page_word(q);
            let w = ops[i].0 as int;
            let c = q % 64;
            assert(64 * w + c == q);
            assert(bit(ops[i].1, c));
            assert(ops_free(bm, ops) ==> bm[w] & ops[i].1 == 0);
            lemma_disjoint_bits(bm[w], ops[i].1);
        }
    }
}

/// Applying the operations of a range marks exactly that range.
proof fn lemma_ops_mark(before: Seq<u64>, after: Seq<u64>, ops: Seq<(usize, u64)>, start: int, end: int)
    requires
        ops_cover(ops, start, end),
        ops_applied(before, after, ops),
        0 <= start <= end,
        end <= 64 * before.len(),
    ensures
        marked(before, after, start, end - start, true),
{
    assert forall|p: int| 0 <= p < 64 * before.len() implies #[trigger] page_used(after, p) == (if start <= p < start + (
    end - start) {
        true
    } else {
        page_used(before, p)
    }) by {
        let w = p / 64;
        let c = p % 64;
        if exists|j: int| 0 <= j < ops.len() && (#[trigger] ops[j]).0 == w {
            let j = choose|j: int| 0 <= j < ops.len() && (#[trigger] ops[j]).0 == w;
            assert(after[w] == before[w] | ops[j].1);
            lemma_bit_or(before[w], ops[j].1, c as u64);
            assert(bit(ops[j].1, c) <==> start <= 64 * ops[j].0 + c < end);
        } else {
            if start <= p < end {
                assert(has_word(ops, page_word(p)));
                let j = choose|j: int| 0 <= j < ops.len() && ops[j].0 == page_word(p);
                assert(ops[j].0 == w);
            }
            assert(forall|j: int| 0 <= j < ops.len() ==> (#[trigger] ops[j]).0 != w);
            assert(after[w] == before[w]);
        }
    }
}

/// Page bitmap allocator.
pub struct AtomicBitmapAllocator {
    bitmap: Vec<u64>,
    total_pages: usize,
    page_size: usize,
    base_addr: u64,
}

impl AtomicBitmapAllocator {
    pub closed spec fn words(&self) -> Seq<u64> {
        self.bitmap@
    }

    pub closed spec fn total(&self) -> usize {
        self.total_pages
    }

    pub closed spec fn spec_page_size(&self) -> usize {
        self.page_size
    }

    pub closed spec fn base(&self) -> u64 {
        self.base_addr
    }

    /// The bitmap covers every page; pages are a power of two in size.
    pub open spec fn wf(&self) -> bool {
        &&& 64 * self.words().len() >= self.total()
        &&& is_pow2(self.spec_page_size())
    }

    /// Addresses of every page fit in 64 bits.
    pub open spec fn addressable(&self) -> bool {
        &&& self.total() * self.spec_page_size() <= usize::MAX
        &&& self.base() + self.total() * self.spec_page_size() <= u64::MAX
    }

    /// An allocator over `bitmap` for `total_pages` pages of `page_size`
    /// bytes from `base_addr`. A bitmap too short for the pages is an
    /// internal error; a page size that is not a power of two is refused.
    pub fn new(bitmap: Vec<u64>, total_pages: usize, page_size: usize, base_addr: u64) -> (r: Result<Self, AllocError>)
        requires
            total_pages + 63 <= usize::MAX,
        ensures
            r is Err <==> (bitmap@.len() < (total_pages + 63) / 64 || !is_pow2(page_size)),
            bitmap@.len() < (total_pages + 63) / 64 ==> r == Err::<Self, AllocError>(AllocError::InternalError),
            (bitmap@.len() >= (total_pages + 63) / 64 && !is_pow2(page_size)) ==> r == Err::<Self, AllocError>(AllocError::InvalidAlignment),
            r matches Ok(a) ==> a.wf() && a.words() == bitmap@ && a.total() == total_pages
                && a.spec_page_size() == page_size && a.base() == base_addr,
    {
        let expected_bitmap_len = (total_pages + 63) / 64;
        if bitmap.len() < expected_bitmap_len {
            return Err(AllocError::InternalError);
        }
        if page_size == 0 || page_size & (page_size - 1) != 0 {
            return Err(AllocError::InvalidAlignment);
        }
        Ok(AtomicBitmapAllocator { bitmap, total_pages, page_size, base_addr })
    }

    /// An allocation of `n` pages from page `s` of the managed range starts
    /// at the address of page `s` (the base plus `s` pages) and spans `n`
    /// pages, all inside the managed range.
    pub proof fn lemma_result_addresses(&self, s: int, n: int)
        requires
            self.addressable(),
            0 <= s,
            1 <= n,
            s + n <= self.total(),
        ensures
            self.result_at(s, n).start_page == s,
            self.result_at(s, n).page_count == n,
            self.result_at(s, n).phys_addr == self.base() + self.result_at(s, n).start_page * self.spec_page_size(),
            self.result_at(s, n).size_bytes == self.result_at(s, n).page_count * self.spec_page_size(),
            self.result_at(s, n).phys_addr + self.result_at(s, n).size_bytes <= self.base() + self.total()
                * self.spec_page_size(),
    {
        let ps = self.spec_page_size() as int;
        let t = self.total() as int;
        vstd::arithmetic::mul::lemma_mul_inequality(s, t, ps);
        vstd::arithmetic::mul::lemma_mul_inequality(n, t, ps);
        vstd::arithmetic::mul::lemma_mul_inequality(s + n, t, ps);
        vstd::arithmetic::mul::lemma_mul_is_distributive_add_other_way(ps, s, n);
    }

    /// What an allocation result of `n` pages from page `s` says of itself:
    /// its count, its bounds and its address and size in bytes.
    proof fn lemma_result_fields(&self, res: AllocResult, s: int, n: int)
        requires
            self.addressable(),
            0 <= s,
            1 <= n,
            s + n <= self.total(),
            res == self.result_at(s, n),
        ensures
            res.page_count == n,
            res.start_page + res.page_count <= self.total(),
            res.phys_addr == self.base() + res.start_page * self.spec_page_size(),
            res.size_bytes == res.page_count * self.spec_page_size(),
    {
        self.lemma_result_addresses(s, n);
    }

    /// Result describing `n` pages from page `s`.
    pub open spec fn result_at(&self, s: int, n: int) -> AllocResult {
        AllocResult {
            phys_addr: (self.base() + s * self.spec_page_size()) as u64,
            size_bytes: (n * self.spec_page_size()) as usize,
            start_page: s as usize,
            page_count: n as usize,
        }
    }

    fn is_used(&self, page: usize) -> (r: bool)
        requires
            page < 64 * self.words().len(),
        ensures
            r == page_used(self.words(), page as int),
    {
        let word_idx = page / 64;
        let bit_idx = (page % 64) as u64;
        let word = self.bitmap[word_idx];
        proof {
            lemma_bit_test(word, bit_idx);
        }
        (word & (1u64 << bit_idx)) != 0
    }

    fn set_page(&mut self, page: usize, used: bool)
        requires
            page < 64 * old(self).words().len(),
        ensures
            marked(old(self).words(), final(self).words(), page as int, 1, used),
            final(self).total() == old(self).total(),
            final(self).spec_page_size() == old(self).spec_page_size(),
            final(self).base() == old(self).base(),
    {
        let word_idx = page / 64;
        let bit_idx = (page % 64) as u64;
        let ghost before = self.bitmap@;
        let w = self.bitmap[word_idx];
        let nw = if used {
            w | (1u64 << bit_idx)
        } else {
            w & !(1u64 << bit_idx)
        };
        self.bitmap.set(word_idx, nw);
        proof {
            assert forall|p: int| 0 <= p < 64 * before.len() implies #[trigger] page_used(self.bitmap@, p) == (if page
                <= p < page + 1 {
                used
            } else {
                page_used(before, p)
            }) by {
                if p / 64 == word_idx as int {
                    let c = (p % 64) as u64;
                    if used {
                        lemma_bit_set(w, bit_idx, c);
                    } else {
                        lemma_bit_clear(w, bit_idx, c);
                    }
                    lemma_bit_test(w, c);
                }
            }
        }
    }

    /// Marks pages `start..start + n` as `used`, one page at a time.
    fn set_range(&mut self, start: usize, n: usize, used: bool)
        requires
            start + n <= 64 * old(self).words().len(),
            start + n <= usize::MAX,
        ensures
            marked(old(self).words(), final(self).words(), start as int, n as int, used),
            final(self).total() == old(self).total(),
            final(self).spec_page_size() == old(self).spec_page_size(),
            final(self).base() == old(self).base(),
    {
        let ghost before = self.bitmap@;
        let mut i: usize = 0;
        while i < n
            invariant
                i <= n,
                start + n <= 64 * before.len(),
                start + n <= usize::MAX,
                marked(before, self.words(), start as int, i as int, used),
                self.total() == old(self).total(),
                self.spec_page_size() == old(self).spec_page_size(),
                self.base() == old(self).base(),
            decreases n - i,
        {
            let ghost mid = self.bitmap@;
            self.set_page(start + i, used);
            i = i + 1;
            proof {
                assert forall|p: int| 0 <= p < 64 * before.len() implies #[trigger] page_used(self.words(), p) == (if start
                    <= p < start + i {
                    used
                } else {
                    page_used(before, p)
                }) by {
                    assert(page_used(mid, p) == (if start <= p < start + i - 1 {
                        used
                    } else {
                        page_used(before, p)
                    }));
                }
            }
        }
    }

    /// Lowest free page of the whole bitmap, if any.
    fn find_lowest_free(&self) -> (r: Option<usize>)
        requires
            64 * self.words().len() <= usize::MAX,
        ensures
            r is None ==> lowest_free(self.words()) is None,
            r matches Some(p) ==> lowest_free(self.words()) == Some(p as int),
    {
        let ghost bm = self.bitmap@;
        let mut word_idx: usize = 0;
        while word_idx < self.bitmap.len()
            invariant
                bm == self.words(),
                64 * bm.len() <= usize::MAX,
                word_idx <= bm.len(),
                forall|q: int| 0 <= q < 64 * word_idx ==> #[trigger] page_used(bm, q),
            decreases bm.len() - word_idx,
        {
            let current = self.bitmap[word_idx];
            if current != !0u64 {
                let inv = !current;
                let bit_pos = inv.trailing_zeros();
                proof {
                    vstd::std_specs::bits::axiom_u64_trailing_zeros(inv);
                    assert(inv != 0) by (bit_vector)
                        requires
                            current != !0u64,
                            inv == !current,
                    ;
                }
                let p = word_idx * 64 + bit_pos as usize;
                proof {
                    lemma_not_bit(current, bit_pos as u64);
                    assert(p / 64 == word_idx as int && p % 64 == bit_pos as int);
                    assert(!page_used(bm, p as int));
                    assert forall|q: int| 0 <= q < p implies #[trigger] page_used(bm, q) by {
                        if q >= 64 * word_idx {
                            let j = (q - 64 * word_idx) as u64;
                            assert(q / 64 == word_idx as int && q % 64 == j as int);
                            assert(((inv >> j) & 1u64) == 0u64);
                            lemma_not_bit(current, j);
                        }
                    }
                    let c = choose|c: int| 0 <= c < 64 * bm.len() && !#[trigger] page_used(bm, c) && forall|q: int|
                        0 <= q < c ==> #[trigger] page_used(bm, q);
                    assert(0 <= p < 64 * bm.len() && !page_used(bm, p as int));
                    if c < p {
                        assert(page_used(bm, c));
                    } else if c > p {
                        assert(page_used(bm, p as int));
                    }
                }
                return Some(p);
            }
            proof {
                assert forall|q: int| 64 * word_idx <= q < 64 * (word_idx + 1) implies #[trigger] page_used(bm, q) by {
                    let j = (q - 64 * word_idx) as u64;
                    assert(q / 64 == word_idx as int && q % 64 == j as int);
                    assert((current >> j) & 1u64 == 1u64) by (bit_vector)
                        requires
                            current == !0u64,
                            j < 64,
                    ;
                }
            }
            word_idx = word_idx + 1;
        }
        proof {
            assert forall|p: int| 0 <= p < 64 * bm.len() implies #[trigger] page_used(bm, p) by {}
        }
        None
    }

    /// Whether pages `start..start + n` are all free.
    fn is_range_free_snapshot(&self, start_page: usize, num_pages: usize) -> (r: bool)
        requires
            start_page + num_pages <= 64 * self.words().len(),
            start_page + num_pages <= usize::MAX,
        ensures
            r == range_free(self.words(), start_page as int, num_pages as int),
    {
        let end_page = start_page + num_pages;
        let mut page = start_page;
        while page < end_page
            invariant
                start_page <= page <= end_page,
                end_page == start_page + num_pages,
                end_page <= 64 * self.words().len(),
                range_free(self.words(), start_page as int, page - start_page),
            decreases end_page - page,
        {
            if self.is_used(page) {
                return false;
            }
            page = page + 1;
        }
        true
    }

    /// First aligned start of a free run of `num_pages` pages.
    fn find_aligned_range(&self, num_pages: usize, alignment_pages: usize) -> (r: Option<usize>)
        requires
            self.wf(),
            alignment_pages > 0,
            num_pages > 0,
        ensures
            r is None ==> forall|s: int| !#[trigger] fits_at(self.words(), self.total() as int, num_pages as int, alignment_pages as int, s),
            r matches Some(s) ==> fits_at(self.words(), self.total() as int, num_pages as int, alignment_pages as int, s as int)
                && forall|t: int| 0 <= t < s ==> !#[trigger] fits_at(self.words(), self.total() as int, num_pages as int, alignment_pages as int, t),
    {
        let total = self.total_pages;
        let mut start: usize = 0;
        let ghost a = alignment_pages as int;
        while start < total
            invariant
                self.wf(),
                total == self.total(),
                (start as int) % a == 0,
                a == alignment_pages,
                a > 0,
                num_pages > 0,
                forall|t: int| 0 <= t < start ==> !#[trigger] fits_at(self.words(), total as int, num_pages as int, a, t),
            decreases total - start,
        {
            if num_pages > total - start {
                proof {
                    assert forall|t: int| 0 <= t implies !#[trigger] fits_at(self.words(), total as int, num_pages as int, a, t) by {
                        if t >= start {
                            assert(t + num_pages > total);
                        }
                    }
                }
                return None;
            }
            if self.is_range_free_snapshot(start, num_pages) {
                return Some(start);
            }
            proof {
                assert forall|t: int| 0 <= t < start + a implies !#[trigger] fits_at(self.words(), total as int, num_pages as int, a, t) by {
                    if start < t < start + a {
                        vstd::arithmetic::div_mod::lemma_mod_add_multiples_vanish(t - start, a);
                        assert((t - start) % a == t % a) by {
                            vstd::arithmetic::div_mod::lemma_mod_sub_multiples_vanish(t, a);
                            vstd::arithmetic::div_mod::lemma_fundamental_div_mod(start as int, a);
                            vstd::arithmetic::div_mod::lemma_mod_multiples_vanish(start as int / a, t - start, a);
                        }
                        vstd::arithmetic::div_mod::lemma_small_mod((t - start) as nat, a as nat);
                    }
                }
            }
            if alignment_pages > total - start {
                proof {
                    assert forall|t: int| 0 <= t implies !#[trigger] fits_at(self.words(), total as int, num_pages as int, a, t) by {
                        if t >= start + a {
                            assert(t + num_pages > total);
                        }
                    }
                }
                return None;
            }
            proof {
                vstd::arithmetic::div_mod::lemma_mod_add_multiples_vanish(start as int, a);
            }
            start = start + alignment_pages;
        }
        proof {
            assert forall|t: int| 0 <= t implies !#[trigger] fits_at(self.words(), total as int, num_pages as int, a, t) by {
                if t >= start {
                    assert(t + num_pages > total);
                }
            }
        }
        None
    }

    /// Allocates `num_pages` contiguous pages aligned to `alignment_pages`
    /// pages. A single unaligned page is the lowest free page; otherwise
    /// the run starts at the first aligned position where it is free.
    pub fn alloc_pages(&mut self, num_pages: usize, alignment_pages: usize) -> (r: Result<AllocResult, AllocError>)
        requires
            old(self).wf(),
            old(self).addressable(),
            64 * old(self).words().len() <= usize::MAX,
        ensures
            final(self).wf(),
            final(self).total() == old(self).total(),
            final(self).spec_page_size() == old(self).spec_page_size(),
            final(self).base() == old(self).base(),
            (num_pages == 0 || num_pages > old(self).total()) ==> r == Err::<AllocResult, AllocError>(AllocError::InvalidSize),
            !(num_pages == 0 || num_pages > old(self).total()) && !is_pow2(alignment_pages) ==> r == Err::<AllocResult, AllocError>(AllocError::InvalidAlignment),
            r is Err ==> final(self).words() == old(self).words(),
            r matches Ok(res) ==> res.page_count == num_pages && res.start_page + res.page_count <= old(self).total()
                && res.phys_addr == old(self).base() + res.start_page * old(self).spec_page_size() && res.size_bytes
                == res.page_count * old(self).spec_page_size(),
            (0 < num_pages <= old(self).total() && is_pow2(alignment_pages) && num_pages == 1 && alignment_pages == 1) ==> ({
                let low = lowest_free(old(self).words());
                &&& (r is Ok <==> (low matches Some(p) && p < old(self).total()))
                &&& r matches Ok(res) ==> res == old(self).result_at(low->0, 1)
                    && marked(old(self).words(), final(self).words(), low->0, 1, true)
            }),
            (0 < num_pages <= old(self).total() && is_pow2(alignment_pages) && !(num_pages == 1 && alignment_pages == 1)) ==> ({
                &&& (r is Ok <==> exists|s: int| #[trigger] fits_at(old(self).words(), old(self).total() as int, num_pages as int, alignment_pages as int, s))
                &&& r matches Ok(res) ==> res == old(self).result_at(res.start_page as int, num_pages as int)
                    && fits_at(old(self).words(), old(self).total() as int, num_pages as int, alignment_pages as int, res.start_page as int)
                    && (forall|t: int| 0 <= t < res.start_page ==> !#[trigger] fits_at(old(self).words(), old(self).total() as int, num_pages as int, alignment_pages as int, t))
                    && marked(old(self).words(), final(self).words(), res.start_page as int, num_pages as int, true)
            }),
    {
        if num_pages == 0 || num_pages > self.total_pages {
            return Err(AllocError::InvalidSize);
        }
        if alignment_pages == 0 || alignment_pages & (alignment_pages - 1) != 0 {
            return Err(AllocError::InvalidAlignment);
        }
        // With the allocator held exclusively an attempt cannot lose a race,
        // so its answer is final.
        match self.try_alloc_pages(num_pages, alignment_pages) {
            Some(result) => {
                proof {
                    old(self).lemma_result_fields(result, result.start_page as int, num_pages as int);
                }
                Ok(result)
            },
            None => Err(AllocError::OutOfMemory),
        }
    }

    /// One allocation attempt: the single-page path for one unaligned page,
    /// else the aligned multi-page path.
    fn try_alloc_pages(&mut self, num_pages: usize, alignment_pages: usize) -> (r: Option<AllocResult>)
        requires
            old(self).wf(),
            old(self).addressable(),
            64 * old(self).words().len() <= usize::MAX,
            0 < num_pages <= old(self).total(),
            alignment_pages > 0,
        ensures
            final(self).wf(),
            final(self).total() == old(self).total(),
            final(self).spec_page_size() == old(self).spec_page_size(),
            final(self).base() == old(self).base(),
            r is None ==> final(self).words() == old(self).words(),
            (num_pages == 1 && alignment_pages == 1) ==> ({
                let low = lowest_free(old(self).words());
                &&& (r is Some <==> (low matches Some(p) && p < old(self).total()))
                &&& r matches Some(res) ==> res == old(self).result_at(low->0, 1)
                    && low == Some(res.start_page as int)
                    && marked(old(self).words(), final(self).words(), low->0, 1, true)
            }),
            !(num_pages == 1 && alignment_pages == 1) ==> ({
                &&& (r is Some <==> exists|s: int| #[trigger] fits_at(old(self).words(), old(self).total() as int, num_pages as int, alignment_pages as int, s))
                &&& r matches Some(res) ==> res == old(self).result_at(res.start_page as int, num_pages as int)
                    && fits_at(old(self).words(), old(self).total() as int, num_pages as int, alignment_pages as int, res.start_page as int)
                    && (forall|t: int| 0 <= t < res.start_page ==> !#[trigger] fits_at(old(self).words(), old(self).total() as int, num_pages as int, alignment_pages as int, t))
                    && marked(old(self).words(), final(self).words(), res.start_page as int, num_pages as int, true)
            }),
    {
        if num_pages == 1 && alignment_pages == 1 {
            return self.try_alloc_single_page();
        }
        self.try_alloc_multi_page(num_pages, alignment_pages)
    }

    /// Single page: the lowest free page, if it is a managed one.
    fn try_alloc_single_page(&mut self) -> (r: Option<AllocResult>)
        requires
            old(self).wf(),
            old(self).addressable(),
            old(self).total() > 0,
            64 * old(self).words().len() <= usize::MAX,
        ensures
            final(self).wf(),
            final(self).total() == old(self).total(),
            final(self).spec_page_size() == old(self).spec_page_size(),
            final(self).base() == old(self).base(),
            ({
                let low = lowest_free(old(self).words());
                &&& (r is Some <==> (low matches Some(p) && p < old(self).total()))
                &&& r matches Some(res) ==> res == old(self).result_at(low->0, 1) && low == Some(
                    res.start_page as int,
                ) && marked(
                    old(self).words(),
                    final(self).words(),
                    low->0,
                    1,
                    true,
                )
            }),
            r is None ==> final(self).words() == old(self).words(),
    {
        match self.find_lowest_free() {
            Some(p) => {
                if p < self.total_pages {
                    proof {
                        vstd::arithmetic::mul::lemma_mul_inequality(p as int, self.total() as int, self.spec_page_size() as int);
                        vstd::arithmetic::mul::lemma_mul_inequality(1, self.total() as int, self.spec_page_size() as int);
                    }
                    self.set_page(p, true);
                    return Some(
                        AllocResult {
                            phys_addr: self.base_addr + (p * self.page_size) as u64,
                            size_bytes: self.page_size,
                            start_page: p,
                            page_count: 1,
                        },
                    );
                }
                None
            },
            None => None,
        }
    }

    /// Several pages, or an aligned one: the first aligned free run.
    fn try_alloc_multi_page(&mut self, num_pages: usize, alignment_pages: usize) -> (r: Option<AllocResult>)
        requires
            old(self).wf(),
            old(self).addressable(),
            num_pages > 0,
            alignment_pages > 0,
        ensures
            final(self).wf(),
            final(self).total() == old(self).total(),
            final(self).spec_page_size() == old(self).spec_page_size(),
            final(self).base() == old(self).base(),
            r is Some <==> exists|s: int| #[trigger] fits_at(old(self).words(), old(self).total() as int, num_pages as int, alignment_pages as int, s),
            r matches Some(res) ==> res == old(self).result_at(res.start_page as int, num_pages as int)
                && fits_at(old(self).words(), old(self).total() as int, num_pages as int, alignment_pages as int, res.start_page as int)
                && (forall|t: int| 0 <= t < res.start_page ==> !#[trigger] fits_at(old(self).words(), old(self).total() as int, num_pages as int, alignment_pages as int, t))
                && marked(old(self).words(), final(self).words(), res.start_page as int, num_pages as int, true),
            r is None ==> final(self).words() == old(self).words(),
    {
        match self.find_aligned_range(num_pages, alignment_pages) {
            Some(s) => {
                let r = self.try_claim_range(s, num_pages);
                r
            },
            None => None,
        }
    }

    /// Marks the pages of `start_page..start_page + num_pages` through
    /// per-word operations when all of them are free.
    fn try_claim_range(&mut self, start_page: usize, num_pages: usize) -> (r: Option<AllocResult>)
        requires
            old(self).wf(),
            old(self).addressable(),
            num_pages > 0,
            start_page + num_pages <= old(self).total(),
        ensures
            final(self).wf(),
            final(self).total() == old(self).total(),
            final(self).spec_page_size() == old(self).spec_page_size(),
            final(self).base() == old(self).base(),
            r is Some <==> range_free(old(self).words(), start_page as int, num_pages as int),
            r matches Some(res) ==> res == old(self).result_at(start_page as int, num_pages as int) && marked(
                old(self).words(),
                final(self).words(),
                start_page as int,
                num_pages as int,
                true,
            ),
            r is None ==> final(self).words() == old(self).words(),
    {
        let end_page = start_page + num_pages;
        let mut word_operations: Vec<(usize, u64)> = Vec::new();
        let mut current_word: usize = usize::MAX;
        let mut current_mask: u64 = 0;
        let mut page = start_page;
        // Pages come in increasing order, so the operations are sorted by word.
        while page < end_page
            invariant
                start_page <= page <= end_page,
                end_page == start_page + num_pages,
                (page == start_page) <==> current_word == usize::MAX,
                page > start_page ==> current_word == (page - 1) / 64,
                current_word == usize::MAX ==> word_operations@.len() == 0,
                current_word != usize::MAX ==> forall|j: int|
                    0 <= j < word_operations@.len() ==> (#[trigger] word_operations@[j]).0 < current_word,
                ops_cover(ops_with_current(word_operations@, current_word, current_mask), start_page as int, page as int),
            decreases end_page - page,
        {
            let word_idx = page / 64;
            let bit_idx = (page % 64) as u64;
            let ghost all = ops_with_current(word_operations@, current_word, current_mask);
            if word_idx != current_word {
                if current_word != usize::MAX {
                    word_operations.push((current_word, current_mask));
                }
                proof {
                    assert(word_operations@ == all);
                    if all.len() > 0 {
                        assert(all.last().0 == current_word);
                    }
                    lemma_cover_new_word(all, start_page as int, page as int, word_idx, bit_idx);
                }
                current_word = word_idx;
                current_mask = 1u64 << bit_idx;
            } else {
                proof {
                    lemma_cover_same_word(all, start_page as int, page as int, current_word, current_mask, bit_idx);
                    assert(all.update(all.len() - 1, (current_word, current_mask | (1u64 << bit_idx))) == word_operations@.push(
                        (current_word, current_mask | (1u64 << bit_idx)),
                    ));
                }
                current_mask = current_mask | (1u64 << bit_idx);
            }
            page = page + 1;
        }
        if current_word != usize::MAX {
            word_operations.push((current_word, current_mask));
        }
        proof {
            lemma_ops_free(self.words(), word_operations@, start_page as int, end_page as int);
        }
        let ghost before = self.words();
        if self.atomic_multi_word_alloc(&word_operations) {
            proof {
                lemma_ops_mark(before, self.words(), word_operations@, start_page as int, end_page as int);
                vstd::arithmetic::mul::lemma_mul_inequality(start_page as int, self.total() as int, self.spec_page_size() as int);
                vstd::arithmetic::mul::lemma_mul_inequality(num_pages as int, self.total() as int, self.spec_page_size() as int);
            }
            Some(
                AllocResult {
                    phys_addr: self.base_addr + (start_page * self.page_size) as u64,
                    size_bytes: num_pages * self.page_size,
                    start_page,
                    page_count: num_pages,
                },
            )
        } else {
            None
        }
    }

    /// Sets each operation's mask in its word when every masked bit is
    /// clear; a single operation is done directly.
    fn atomic_multi_word_alloc(&mut self, operations: &Vec<(usize, u64)>) -> (r: bool)
        requires
            forall|i: int, j: int| 0 <= i < j < operations@.len() ==> #[trigger] operations@[i].0 < #[trigger] operations@[j].0,
        ensures
            final(self).total() == old(self).total(),
            final(self).spec_page_size() == old(self).spec_page_size(),
            final(self).base() == old(self).base(),
            r == ops_free(old(self).words(), operations@),
            r ==> ops_applied(old(self).words(), final(self).words(), operations@),
            !r ==> final(self).words() == old(self).words(),
    {
        if operations.len() == 1 {
            let (word_idx, mask) = operations[0];
            if word_idx >= self.bitmap.len() {
                return false;
            }
            let current = self.bitmap[word_idx];
            if (current & mask) != 0 {
                return false;
            }
            let ghost before = self.bitmap@;
            self.bitmap.set(word_idx, current | mask);
            proof {
                assert(operations@[0] == (word_idx, mask));
                assert forall|w: int|
                    0 <= w < before.len() && (forall|j: int| 0 <= j < operations@.len() ==> (#[trigger] operations@[j]).0 != w) implies #[trigger] self.bitmap@[w]
                        == before[w] by {
                    assert(operations@[0].0 != w);
                }
            }
            true
        } else {
            self.atomic_multi_word_alloc_complex(operations)
        }
    }

    /// Several words: first checks that every masked bit is clear, taking a
    /// snapshot of each word, then sets the masks.  With the allocator held
    /// exclusively no word changes between the two passes.
    fn atomic_multi_word_alloc_complex(&mut self, operations: &Vec<(usize, u64)>) -> (r: bool)
        requires
            forall|i: int, j: int| 0 <= i < j < operations@.len() ==> #[trigger] operations@[i].0 < #[trigger] operations@[j].0,
        ensures
            final(self).total() == old(self).total(),
            final(self).spec_page_size() == old(self).spec_page_size(),
            final(self).base() == old(self).base(),
            r == ops_free(old(self).words(), operations@),
            r ==> ops_applied(old(self).words(), final(self).words(), operations@),
            !r ==> final(self).words() == old(self).words(),
    {
        let ghost before = self.bitmap@;
        let ops = operations;
        let mut snapshots: Vec<(usize, u64)> = Vec::new();
        let mut i: usize = 0;
        while i < ops.len()
            invariant
                self.bitmap@ == before,
                before == old(self).words(),
                ops@ == operations@,
                self.total() == old(self).total(),
                self.spec_page_size() == old(self).spec_page_size(),
                self.base() == old(self).base(),
                i <= ops@.len(),
                snapshots@.len() == i,
                forall|j: int| 0 <= j < i ==> (#[trigger] ops@[j]).0 < before.len() && before[ops@[j].0 as int] & ops@[j].1 == 0,
                forall|j: int| 0 <= j < i ==> #[trigger] snapshots@[j] == (ops@[j].0, before[ops@[j].0 as int]),
            decreases ops@.len() - i,
        {
            let (word_idx, mask) = ops[i];
            if word_idx >= self.bitmap.len() {
                proof {
                    assert(!(ops@[i as int].0 < before.len()));
                    assert(!ops_free(before, ops@));
                }
                return false;
            }
            let current = self.bitmap[word_idx];
            snapshots.push((word_idx, current));
            if (current & mask) != 0 {
                proof {
                    assert(before[ops@[i as int].0 as int] & ops@[i as int].1 != 0);
                    assert(!ops_free(before, ops@));
                }
                return false;
            }
            i = i + 1;
        }
        let mut i: usize = 0;
        while i < ops.len()
            invariant
                i <= ops@.len(),
                snapshots@.len() == ops@.len(),
                self.bitmap@.len() == before.len(),
                self.total() == old(self).total(),
                self.spec_page_size() == old(self).spec_page_size(),
                self.base() == old(self).base(),
                forall|a: int, b: int| 0 <= a < b < ops@.len() ==> #[trigger] ops@[a].0 < #[trigger] ops@[b].0,
                forall|j: int| 0 <= j < ops@.len() ==> (#[trigger] ops@[j]).0 < before.len(),
                forall|j: int| 0 <= j < ops@.len() ==> #[trigger] snapshots@[j] == (ops@[j].0, before[ops@[j].0 as int]),
                forall|j: int| 0 <= j < i ==> self.bitmap@[(#[trigger] ops@[j]).0 as int] == before[ops@[j].0 as int] | ops@[j].1,
                forall|w: int|
                    0 <= w < before.len() && (forall|j: int| 0 <= j < i ==> (#[trigger] ops@[j]).0 != w) ==> #[trigger] self.bitmap@[w]
                        == before[w],
            decreases ops@.len() - i,
        {
            let (word_idx, mask) = ops[i];
            let (_, snapshot) = snapshots[i];
            let ghost mid = self.bitmap@;
            self.bitmap.set(word_idx, snapshot | mask);
            proof {
                assert forall|j: int| 0 <= j < i + 1 implies self.bitmap@[(#[trigger] ops@[j]).0 as int] == before[ops@[j].0 as int]
                    | ops@[j].1 by {
                    if j < i {
                        assert(ops@[j].0 < ops@[i as int].0);
                        assert(mid[ops@[j].0 as int] == before[ops@[j].0 as int] | ops@[j].1);
                    }
                }
                assert forall|w: int|
                    0 <= w < before.len() && (forall|j: int| 0 <= j < i + 1 ==> (#[trigger] ops@[j]).0 != w) implies #[trigger] self.bitmap@[w]
                        == before[w] by {
                    assert(ops@[i as int].0 != w);
                    assert(forall|j: int| 0 <= j < i ==> (#[trigger] ops@[j]).0 != w);
                }
            }
            i = i + 1;
        }
        true
    }

    /// Frees the pages of an allocation. A range past the managed pages is
    /// an internal error.
    pub fn free_pages(&mut self, alloc_result: &AllocResult) -> (r: Result<(), AllocError>)
        requires
            old(self).wf(),
            alloc_result.start_page + alloc_result.page_count <= usize::MAX,
            alloc_result.start_page + alloc_result.page_count <= old(self).total() ==> range_used(
                old(self).words(),
                alloc_result.start_page as int,
                alloc_result.page_count as int,
            ),
        ensures
            final(self).wf(),
            final(self).total() == old(self).total(),
            final(self).spec_page_size() == old(self).spec_page_size(),
            final(self).base() == old(self).base(),
            r is Err <==> alloc_result.start_page + alloc_result.page_count > old(self).total(),
            r is Err ==> r == Err::<(), AllocError>(AllocError::InternalError) && final(self).words() == old(self).words(),
            r is Ok ==> marked(old(self).words(), final(self).words(), alloc_result.start_page as int, alloc_result.page_count as int, false),
    {
        let start_page = alloc_result.start_page;
        let num_pages = alloc_result.page_count;
        if start_page + num_pages > self.total_pages {
            return Err(AllocError::InternalError);
        }
        self.set_range(start_page, num_pages, false);
        Ok(())
    }

    /// Allocation statistics: allocated and free pages, utilisation in
    /// basis points and the fragmentation estimate.
    pub fn get_stats(&self) -> (r: BitmapStats)
        requires
            self.wf(),
            self.total() * 10000 <= usize::MAX,
        ensures
            r.total_pages == self.total(),
            r.allocated_pages as int == count_used(self.words(), self.total() as int),
            r.free_pages as int == self.total() - count_used(self.words(), self.total() as int),
            r.utilization_bp == (if self.total() > 0 {
                ((count_used(self.words(), self.total() as int) as int) * 10000 / (self.total() as int)) as u32
            } else {
                0
            }),
            r.fragmentation_estimate == fragmentation(self.words(), self.total() as int),
    {
        let total = self.total_pages;
        let mut allocated: usize = 0;
        let mut page: usize = 0;
        while page < total
            invariant
                self.wf(),
                total == self.total(),
                page <= total,
                allocated as int == count_used(self.words(), page as int),
            decreases total - page,
        {
            proof {
                lemma_counts_bounded(self.words(), page as int);
            }
            if self.is_used(page) {
                allocated = allocated + 1;
            }
            page = page + 1;
        }
        proof {
            lemma_counts_bounded(self.words(), total as int);
        }
        let free_pages = total - allocated;
        let utilization: u32 = if total > 0 {
            #[verifier::truncate] ((allocated * 10000 / total) as u32)
        } else {
            0
        };
        BitmapStats {
            total_pages: total,
            allocated_pages: allocated,
            free_pages,
            utilization_bp: utilization,
            fragmentation_estimate: self.estimate_fragmentation(),
        }
    }

    /// Fragmentation: free runs beyond the first per free page, in basis
    /// points.
    fn estimate_fragmentation(&self) -> (r: u32)
        requires
            self.wf(),
            self.total() * 10000 <= usize::MAX,
        ensures
            r == fragmentation(self.words(), self.total() as int),
    {
        let total = self.total_pages;
        let mut free_runs: usize = 0;
        let mut total_free: usize = 0;
        let mut in_run = false;
        let mut page: usize = 0;
        while page < total
            invariant
                self.wf(),
                total == self.total(),
                page <= total,
                free_runs as int == free_runs_spec(self.words(), page as int),
                total_free as int == page - count_used(self.words(), page as int),
                in_run == (page > 0 && !page_used(self.words(), page - 1)),
            decreases total - page,
        {
            proof {
                lemma_counts_bounded(self.words(), page as int);
            }
            if !self.is_used(page) {
                if !in_run {
                    free_runs = free_runs + 1;
                }
                total_free = total_free + 1;
                in_run = true;
            } else {
                in_run = false;
            }
            page = page + 1;
        }
        proof {
            lemma_counts_bounded(self.words(), total as int);
        }
        if total_free > 0 && free_runs > 0 {
            #[verifier::truncate] (((free_runs - 1) * 10000 / total_free) as u32)
        } else {
            0
        }
    }
}

/// Free runs among the first `n` pages.
pub open spec fn free_runs_spec(bm: Seq<u64>, n: int) -> nat {
    free_runs(bm, n)
}

/// Fragmentation estimate of the first `total` pages.
pub open spec fn fragmentation(bm: Seq<u64>, total: int) -> u32 {
    let runs = free_runs(bm, total) as int;
    let free = total - count_used(bm, total);
    if free > 0 && runs > 0 {
        ((runs - 1) * 10000 / free) as u32
    } else {
        0
    }
}

/// Freeing an allocation gives back exactly the bitmap from before it.
pub proof fn lemma_alloc_free_restores(before: Seq<u64>, mid: Seq<u64>, after: Seq<u64>, start: int, n: int)
    requires
        range_free(before, start, n),
        marked(before, mid, start, n, true),
        marked(mid, after, start, n, false),
    ensures
        forall|p: int| 0 <= p < 64 * before.len() ==> #[trigger] page_used(after, p) == page_used(before, p),
{
    assert forall|p: int| 0 <= p < 64 * before.len() implies #[trigger] page_used(after, p) == page_used(before, p) by {
        assert(page_used(after, p) == (if start <= p < start + n {
            false
        } else {
            page_used(mid, p)
        }));
        assert(page_used(mid, p) == (if start <= p < start + n {
            true
        } else {
            page_used(before, p)
        }));
    }
}

} // verus!
