//! Fuzzy extractor for privacy-preserving noisy pattern matching: a key is
//! reconstructed from a noisy measurement and encrypted helper data, by
//! correcting the measurement with the helper's syndrome and then
//! amplifying it (a universal hash read out as a 256-bit key).

use vstd::prelude::*;
use crate::kernel::auth::encryption::{CryptoError, xor_keystream, lemma_decrypt_encrypt};

verus! {

/// Fuzzy extractor errors.
#[derive(Clone, Copy, PartialEq, Eq, Structural, Debug)]
pub enum FuzzyError {
    InsufficientData,
    ExcessiveNoise,
    CryptoError(CryptoError),
    AllocationFailed,
    SizeMismatch,
}

/// Secure sketch for error correction.
#[derive(Debug)]
pub struct SecureSketch {
    pub syndrome: Vec<u8>,
    pub code_length: usize,
    pub max_errors: usize,
}

/// Extraction counters.
#[derive(Clone, Copy, Debug)]
pub struct ExtractionStats {
    pub extractions: u64,
    pub reconstructions: u64,
    pub avg_noise_level: u64,
}

impl ExtractionStats {
    pub fn new() -> (r: Self)
        ensures
            r.extractions == 0 && r.reconstructions == 0 && r.avg_noise_level == 0,
    {
        ExtractionStats { extractions: 0, reconstructions: 0, avg_noise_level: 0 }
    }
}

/// Little-endian word of up to eight bytes.
pub open spec fn chunk_word(c: Seq<u8>) -> u64
    decreases c.len(),
{
    if c.len() == 0 {
        0
    } else {
        chunk_word(c.drop_last()) | ((c.last() as u64) << (((c.len() - 1) * 8) as u64))
    }
}

/// One hashing round over a chunk word.
pub open spec fn mix(h: u64, w: u64, p: [u64; 4]) -> u64 {
    h.wrapping_mul(p@[1]).wrapping_add(w).wrapping_mul(p@[2]).wrapping_add(p@[3])
}

/// Hash state after absorbing `data` eight bytes at a time from `h`.
pub open spec fn absorb(h: u64, data: Seq<u8>, p: [u64; 4]) -> u64
    decreases data.len(),
{
    if data.len() == 0 {
        h
    } else {
        let n: int = if data.len() < 8 {
            data.len() as int
        } else {
            8
        };
        absorb(mix(h, chunk_word(data.take(n)), p), data.skip(n), p)
    }
}

/// Key word `i` squeezed from hash state `h`.
pub open spec fn key_word(h: u64, p: [u64; 4], i: nat) -> u64
    decreases i,
{
    if i == 0 {
        h.wrapping_mul(p@[0])
    } else {
        key_word(h, p, (i - 1) as nat).wrapping_mul(p@[i as int])
    }
}

/// Privacy amplification context.
#[derive(Clone, Copy, Debug)]
pub struct PrivacyAmplifier {
    pub hash_params: [u64; 4],
    pub output_bits: usize,
}

/// The fixed hash parameters.
pub open spec fn amplifier_params() -> [u64; 4] {
    [0x123456789ABCDEF0u64, 0xFEDCBA9876543210u64, 0x0F1E2D3C4B5A6978u64, 0x8796A5B4C3D2E1F0u64]
}

impl PrivacyAmplifier {
    /// An amplifier producing `output_bits` bits with the fixed parameters.
    pub fn new(output_bits: usize) -> (r: Self)
        ensures
            r.hash_params == amplifier_params(),
            r.output_bits == output_bits,
    {
        PrivacyAmplifier {
            hash_params: [0x123456789ABCDEF0, 0xFEDCBA9876543210, 0x0F1E2D3C4B5A6978, 0x8796A5B4C3D2E1F0],
            output_bits,
        }
    }

    /// Key from a measurement of at least eight bytes: the measurement is
    /// hashed eight bytes at a time, then four words are squeezed out and
    /// laid out little-endian.
    pub fn extract(&self, biometric_data: &[u8]) -> (r: Result<[u8; 32], FuzzyError>)
        ensures
            r is Err <==> biometric_data@.len() < 8,
            r is Err ==> r == Err::<[u8; 32], FuzzyError>(FuzzyError::InsufficientData),
            r matches Ok(key) ==> forall|i: int, j: int|
                0 <= i < 4 && 0 <= j < 8 ==> #[trigger] key@[8 * i + j] == (key_word(
                    absorb(self.hash_params@[0], biometric_data@, self.hash_params),
                    self.hash_params,
                    i as nat,
                ) >> ((8 * j) as u64)) as u8,
    {
        if biometric_data.len() < 8 {
            return Err(FuzzyError::InsufficientData);
        }
        let p = self.hash_params;
        let ghost data = biometric_data@;
        let mut hash_state = self.hash_params[0];
        let mut pos: usize = 0;
        assert(data.skip(0) =~= data);
        while pos < biometric_data.len()
            invariant
                pos <= data.len(),
                data == biometric_data@,
                p == self.hash_params,
                absorb(hash_state, data.skip(pos as int), p) == absorb(p@[0], data, p),
            decreases data.len() - pos,
        {
            let end: usize = if biometric_data.len() - pos < 8 {
                biometric_data.len()
            } else {
                pos + 8
            };
            let mut chunk_val: u64 = 0;
            let mut i: usize = 0;
            while pos + i < end
                invariant
                    pos <= end <= data.len(),
                    end - pos <= 8,
                    data == biometric_data@,
                    i <= end - pos,
                    chunk_val == chunk_word(data.subrange(pos as int, pos + i)),
                decreases end - pos - i,
            {
                let b = biometric_data[pos + i];
                proof {
                    let c = data.subrange(pos as int, pos + i + 1);
                    assert(c.drop_last() =~= data.subrange(pos as int, pos + i));
                    assert(c.last() == b);
                }
                chunk_val = chunk_val | ((b as u64) << ((i * 8) as u64));
                i = i + 1;
            }
            proof {
                let s = data.skip(pos as int);
                let n = end - pos;
                assert(s.take(n as int) =~= data.subrange(pos as int, end as int));
                assert(s.skip(n as int) =~= data.skip(end as int));
            }
            hash_state = hash_state.wrapping_mul(p[1]).wrapping_add(chunk_val).wrapping_mul(p[2]).wrapping_add(p[3]);
            pos = end;
        }
        let ghost h = hash_state;
        proof {
            assert(data.skip(data.len() as int) =~= Seq::<u8>::empty());
        }
        let mut key = [0u8; 32];
        let mut i: usize = 0;
        while i < 4
            invariant
                i <= 4,
                p == self.hash_params,
                i > 0 ==> hash_state == key_word(h, p, (i - 1) as nat),
                i == 0 ==> hash_state == h,
                forall|a: int, b: int|
                    0 <= a < i && 0 <= b < 8 ==> #[trigger] key@[8 * a + b] == (key_word(h, p, a as nat) >> ((8 * b) as u64)) as u8,
            decreases 4 - i,
        {
            let key_chunk = hash_state.wrapping_mul(p[i]);
            proof {
                assert(key_chunk == key_word(h, p, i as nat));
            }
            let mut j: usize = 0;
            while j < 8
                invariant
                    i < 4,
                    j <= 8,
                    key_chunk == key_word(h, p, i as nat),
                    forall|a: int, b: int|
                        0 <= a < i && 0 <= b < 8 ==> #[trigger] key@[8 * a + b] == (key_word(h, p, a as nat) >> ((8 * b) as u64)) as u8,
                    forall|b: int| 0 <= b < j ==> #[trigger] key@[8 * i + b] == (key_chunk >> ((8 * b) as u64)) as u8,
                decreases 8 - j,
            {
                key[i * 8 + j] = #[verifier::truncate] ((key_chunk >> ((j * 8) as u64)) as u8);
                j = j + 1;
            }
            hash_state = key_chunk;
            i = i + 1;
        }
        Ok(key)
    }
}

/// The key `key` is what an amplifier with parameters `p` reads out of
/// `data`.
pub open spec fn amplified_key(key: [u8; 32], p: [u64; 4], data: Seq<u8>) -> bool {
    forall|i: int, j: int|
        0 <= i < 4 && 0 <= j < 8 ==> #[trigger] key@[8 * i + j] == (key_word(absorb(p@[0], data, p), p, i as nat)
            >> ((8 * j) as u64)) as u8
}

/// The measurement `d` after the first `k` syndrome checks of a code of
/// length `n`: check `i` compares bytes `2i` and `2i + 1` (modulo `n`) with
/// the syndrome's XOR entry and flips the low bit of the first when they
/// disagree.
pub open spec fn corrected_upto(d: Seq<u8>, syn: Seq<u8>, n: int, k: int) -> Seq<u8>
    decreases k,
{
    if k <= 0 {
        d
    } else {
        let c = corrected_upto(d, syn, n, k - 1);
        let i = k - 1;
        if i * 2 + 1 < syn.len() {
            let a = (i * 2) % n;
            let b = (i * 2 + 1) % n;
            if c[a] ^ c[b] != syn[i * 2] {
                c.update(a, c[a] ^ 1u8)
            } else {
                c
            }
        } else {
            c
        }
    }
}

/// Length of the codes the helper data describes.
pub const SKETCH_CODE_LENGTH: usize = 64;

/// Syndrome checks the helper data describes.
pub const SKETCH_MAX_ERRORS: usize = 8;

/// Bytes of nonce and tag in front of the encrypted syndrome.
pub const HELPER_HEADER: usize = 28;

/// Sketch parameters.
#[derive(Clone, Copy, Debug)]
pub struct SketchParams {
    pub block_size: usize,
    pub distance_threshold: u32,
}

/// Fuzzy extractor: privacy amplifier, sketch parameters and counters.
pub struct FuzzyExtractor {
    pub amplifier: PrivacyAmplifier,
    pub sketch_params: SketchParams,
    pub stats: ExtractionStats,
}

impl FuzzyExtractor {
    /// A 256-bit amplifier; 64-byte blocks, distance threshold 8.
    pub fn new() -> (r: Self)
        ensures
            r.amplifier.hash_params == amplifier_params(),
            r.amplifier.output_bits == 256,
            r.sketch_params.block_size == 64,
            r.sketch_params.distance_threshold == 8,
            r.stats.extractions == 0 && r.stats.reconstructions == 0 && r.stats.avg_noise_level == 0,
    {
        FuzzyExtractor {
            amplifier: PrivacyAmplifier::new(256),
            sketch_params: SketchParams { block_size: 64, distance_threshold: 8 },
            stats: ExtractionStats::new(),
        }
    }

    /// The sketch stored in `encoded` (nonce, tag, then the syndrome
    /// encrypted under `master_key`): a 64-byte code with eight checks.
    pub fn decode_helper_data(&self, encoded: &[u8], master_key: &[u8; 32]) -> (r: Result<SecureSketch, FuzzyError>)
        ensures
            encoded@.len() < HELPER_HEADER ==> r == Err::<SecureSketch, FuzzyError>(FuzzyError::InsufficientData),
            encoded@.len() >= HELPER_HEADER ==> (r matches Ok(sk) && sk.syndrome@ == xor_keystream(
                encoded@.skip(HELPER_HEADER as int),
                *master_key,
            ) && sk.code_length == SKETCH_CODE_LENGTH && sk.max_errors == SKETCH_MAX_ERRORS),
    {
        if encoded.len() < HELPER_HEADER {
            return Err(FuzzyError::InsufficientData);
        }
        let ghost ct = encoded@.skip(HELPER_HEADER as int);
        let mut syndrome: Vec<u8> = Vec::new();
        let mut i: usize = HELPER_HEADER;
        while i < encoded.len()
            invariant
                HELPER_HEADER <= i <= encoded@.len(),
                ct == encoded@.skip(HELPER_HEADER as int),
                syndrome@ == xor_keystream(ct, *master_key).subrange(0, i - HELPER_HEADER),
            decreases encoded@.len() - i,
        {
            let k = i - HELPER_HEADER;
            syndrome.push(encoded[i] ^ master_key[k % 32]);
            proof {
                assert(syndrome@ =~= xor_keystream(ct, *master_key).subrange(0, i + 1 - HELPER_HEADER));
            }
            i = i + 1;
        }
        proof {
            assert(syndrome@ =~= xor_keystream(ct, *master_key));
        }
        Ok(SecureSketch { syndrome, code_length: SKETCH_CODE_LENGTH, max_errors: SKETCH_MAX_ERRORS })
    }

    /// `noisy_data` after the sketch's syndrome checks; a measurement of
    /// another length than the code is refused.
    pub fn error_correct(&self, noisy_data: &[u8], sketch: &SecureSketch) -> (r: Result<Vec<u8>, FuzzyError>)
        requires
            sketch.code_length > 0,
            sketch.max_errors * 2 + 1 <= usize::MAX,
        ensures
            noisy_data@.len() != sketch.code_length ==> r == Err::<Vec<u8>, FuzzyError>(FuzzyError::SizeMismatch),
            noisy_data@.len() == sketch.code_length ==> (r matches Ok(c) && c@.len() == noisy_data@.len() && c@ == corrected_upto(
                noisy_data@,
                sketch.syndrome@,
                sketch.code_length as int,
                sketch.max_errors as int,
            )),
    {
        if noisy_data.len() != sketch.code_length {
            return Err(FuzzyError::SizeMismatch);
        }
        let n = sketch.code_length;
        let mut corrected: Vec<u8> = Vec::new();
        let mut j: usize = 0;
        while j < noisy_data.len()
            invariant
                j <= noisy_data@.len(),
                corrected@ == noisy_data@.subrange(0, j as int),
            decreases noisy_data@.len() - j,
        {
            corrected.push(noisy_data[j]);
            j = j + 1;
        }
        proof {
            assert(corrected@ =~= noisy_data@);
        }
        let mut i: usize = 0;
        while i < sketch.max_errors
            invariant
                i <= sketch.max_errors,
                n == sketch.code_length,
                n > 0,
                sketch.max_errors * 2 + 1 <= usize::MAX,
                corrected@.len() == n,
                corrected@ == corrected_upto(noisy_data@, sketch.syndrome@, n as int, i as int),
            decreases sketch.max_errors - i,
        {
            if i * 2 + 1 < sketch.syndrome.len() {
                let idx1 = (i * 2) % n;
                let idx2 = (i * 2 + 1) % n;
                let expected_xor = sketch.syndrome[i * 2];
                let actual_xor = corrected[idx1] ^ corrected[idx2];
                if actual_xor != expected_xor {
                    let flipped = corrected[idx1] ^ 1u8;
                    corrected.set(idx1, flipped);
                }
            }
            i = i + 1;
        }
        Ok(corrected)
    }

    /// Reconstructs the key of a noisy measurement from its helper data:
    /// the helper is decrypted under `master_key` into a sketch, the
    /// measurement corrected with it, and the result amplified.
    pub fn reconstruct(&mut self, noisy_data: &[u8], helper_data: &[u8], master_key: &[u8; 32]) -> (r: Result<
        [u8; 32],
        FuzzyError,
    >)
        ensures
            noisy_data@.len() < 32 || helper_data@.len() < HELPER_HEADER ==> r == Err::<[u8; 32], FuzzyError>(
                FuzzyError::InsufficientData,
            ),
            noisy_data@.len() >= 32 && helper_data@.len() >= HELPER_HEADER && noisy_data@.len() != SKETCH_CODE_LENGTH
                ==> r == Err::<[u8; 32], FuzzyError>(FuzzyError::SizeMismatch),
            noisy_data@.len() == SKETCH_CODE_LENGTH && helper_data@.len() >= HELPER_HEADER ==> (r matches Ok(key)
                && amplified_key(
                key,
                old(self).amplifier.hash_params,
                corrected_upto(
                    noisy_data@,
                    xor_keystream(helper_data@.skip(HELPER_HEADER as int), *master_key),
                    SKETCH_CODE_LENGTH as int,
                    SKETCH_MAX_ERRORS as int,
                ),
            )),
            r is Ok ==> final(self).stats.reconstructions == old(self).stats.reconstructions.wrapping_add(1),
            r is Err ==> final(self).stats == old(self).stats,
            final(self).amplifier == old(self).amplifier,
            final(self).stats.extractions == old(self).stats.extractions,
    {
        if noisy_data.len() < 32 || helper_data.len() == 0 {
            return Err(FuzzyError::InsufficientData);
        }
        let sketch = match self.decode_helper_data(helper_data, master_key) {
            Ok(sk) => sk,
            Err(e) => {
                return Err(e);
            },
        };
        let corrected = match self.error_correct(noisy_data, &sketch) {
            Ok(c) => c,
            Err(e) => {
                return Err(e);
            },
        };
        let key = match self.amplifier.extract(corrected.as_slice()) {
            Ok(k) => {
                proof {
                    assert(amplified_key(k, self.amplifier.hash_params, corrected@));
                }
                k
            },
            Err(e) => {
                return Err(e);
            },
        };
        self.stats.reconstructions = self.stats.reconstructions.wrapping_add(1);
        Ok(key)
    }
}

/// The syndrome a sketch of `d` keeps: for each of `len / 2` checks `i`,
/// the XOR and the wrapping sum of bytes `2i` and `2i + 1` (modulo the
/// length).
pub open spec fn sketch_syndrome(d: Seq<u8>) -> Seq<u8> {
    Seq::new(
        2 * (d.len() / 2),
        |k: int|
            {
                let i = k / 2;
                let a = (2 * i) % (d.len() as int);
                let b = (2 * i + 1) % (d.len() as int);
                if k % 2 == 0 {
                    d[a] ^ d[b]
                } else {
                    ((d[a] + d[b]) % 256) as u8
                }
            },
    )
}

/// Key and helper data of an enrolled measurement.
#[derive(Debug)]
pub struct BiometricExtraction {
    pub key: [u8; 32],
    pub helper_data: Vec<u8>,
}

impl FuzzyExtractor {
    /// Enrolls a measurement of at least 32 bytes: its key is amplified
    /// out of it, and the helper data is a zero nonce and tag followed by
    /// its sketch's syndrome encrypted under `master_key`.
    pub fn extract(&mut self, biometric_data: &[u8], master_key: &[u8; 32]) -> (r: Result<
        BiometricExtraction,
        FuzzyError,
    >)
        ensures
            biometric_data@.len() < 32 ==> r == Err::<BiometricExtraction, FuzzyError>(FuzzyError::InsufficientData)
                && final(self).stats == old(self).stats,
            biometric_data@.len() >= 32 ==> (r matches Ok(x) && amplified_key(
                x.key,
                old(self).amplifier.hash_params,
                biometric_data@,
            ) && x.helper_data@ == Seq::new(HELPER_HEADER as nat, |_i: int| 0u8) + xor_keystream(
                sketch_syndrome(biometric_data@),
                *master_key,
            )) && final(self).stats.extractions == old(self).stats.extractions.wrapping_add(1),
            final(self).stats.reconstructions == old(self).stats.reconstructions,
            final(self).amplifier == old(self).amplifier,
    {
        if biometric_data.len() < 32 {
            return Err(FuzzyError::InsufficientData);
        }
        self.stats.extractions = self.stats.extractions.wrapping_add(1);
        let ghost d = biometric_data@;
        let len = biometric_data.len();
        let max_errors = len / 2;
        let mut syndrome: Vec<u8> = Vec::new();
        let mut i: usize = 0;
        while i < max_errors
            invariant
                d == biometric_data@,
                len == d.len(),
                len >= 32,
                max_errors == len / 2,
                i <= max_errors,
                syndrome@ == sketch_syndrome(d).subrange(0, 2 * i),
            decreases max_errors - i,
        {
            let idx1 = (i * 2) % len;
            let idx2 = (i * 2 + 1) % len;
            let x = biometric_data[idx1] ^ biometric_data[idx2];
            let y = biometric_data[idx1].wrapping_add(biometric_data[idx2]);
            syndrome.push(x);
            syndrome.push(y);
            proof {
                let t = sketch_syndrome(d);
                assert((2 * i) / 2 == i as int);
                assert((2 * i + 1) / 2 == i as int);
                assert((2 * i) % 2 == 0);
                assert((2 * i + 1) % 2 == 1);
                assert(t[2 * i] == x);
                assert(t[2 * i + 1] == y);
                assert(syndrome@ =~= t.subrange(0, 2 * (i + 1)));
            }
            i = i + 1;
        }
        proof {
            assert(syndrome@ =~= sketch_syndrome(d));
        }
        let key = match self.amplifier.extract(biometric_data) {
            Ok(k) => {
                proof {
                    assert(amplified_key(k, self.amplifier.hash_params, d));
                }
                k
            },
            Err(e) => {
                return Err(e);
            },
        };
        let ghost enc = xor_keystream(syndrome@, *master_key);
        let mut helper_data: Vec<u8> = Vec::new();
        let mut h: usize = 0;
        while h < HELPER_HEADER
            invariant
                h <= HELPER_HEADER,
                helper_data@ == Seq::new(h as nat, |_i: int| 0u8),
            decreases HELPER_HEADER - h,
        {
            helper_data.push(0u8);
            h = h + 1;
            proof {
                assert(helper_data@ =~= Seq::new(h as nat, |_i: int| 0u8));
            }
        }
        let mut k: usize = 0;
        while k < syndrome.len()
            invariant
                k <= syndrome@.len(),
                enc == xor_keystream(syndrome@, *master_key),
                helper_data@ == Seq::new(HELPER_HEADER as nat, |_i: int| 0u8) + enc.subrange(0, k as int),
            decreases syndrome@.len() - k,
        {
            helper_data.push(syndrome[k] ^ master_key[k % 32]);
            proof {
                assert(helper_data@ =~= Seq::new(HELPER_HEADER as nat, |_i: int| 0u8) + enc.subrange(0, k + 1));
            }
            k = k + 1;
        }
        proof {
            assert(enc.subrange(0, syndrome@.len() as int) =~= enc);
        }
        Ok(BiometricExtraction { key, helper_data })
    }
}

/// The checks of a measurement against its own syndrome change nothing.
proof fn lemma_own_syndrome_keeps(d: Seq<u8>, k: int)
    requires
        d.len() == SKETCH_CODE_LENGTH,
        0 <= k <= SKETCH_MAX_ERRORS,
    ensures
        corrected_upto(d, sketch_syndrome(d), SKETCH_CODE_LENGTH as int, k) == d,
    decreases k,
{
    if k > 0 {
        lemma_own_syndrome_keeps(d, k - 1);
        let i = k - 1;
        let syn = sketch_syndrome(d);
        assert(i * 2 + 1 < syn.len());
        assert((i * 2) / 2 == i);
        assert((i * 2) % 2 == 0);
    }
}

/// A key is determined by what the amplifier reads out.
pub proof fn lemma_amplified_key_unique(k1: [u8; 32], k2: [u8; 32], p: [u64; 4], data: Seq<u8>)
    requires
        amplified_key(k1, p, data),
        amplified_key(k2, p, data),
    ensures
        k1 == k2,
{
    assert forall|n: int| 0 <= n < 32 implies k1@[n] == k2@[n] by {
        let i = n / 8;
        let j = n % 8;
        assert(n == 8 * i + j);
        assert(k1@[8 * i + j] == k2@[8 * i + j]);
    }
    assert(k1@ =~= k2@);
}

/// Reconstructing from the enrolled measurement itself with the helper
/// data that enrollment produced (under the same master key) corrects
/// nothing, so it reads out the enrolled key.
pub proof fn lemma_reconstruct_enrolled(d: Seq<u8>, master_key: [u8; 32], helper: Seq<u8>)
    requires
        d.len() == SKETCH_CODE_LENGTH,
        helper == Seq::new(HELPER_HEADER as nat, |_i: int| 0u8) + xor_keystream(sketch_syndrome(d), master_key),
    ensures
        corrected_upto(
            d,
            xor_keystream(helper.skip(HELPER_HEADER as int), master_key),
            SKETCH_CODE_LENGTH as int,
            SKETCH_MAX_ERRORS as int,
        ) == d,
{
    assert(helper.skip(HELPER_HEADER as int) =~= xor_keystream(sketch_syndrome(d), master_key));
    lemma_decrypt_encrypt(sketch_syndrome(d), master_key);
    lemma_own_syndrome_keeps(d, SKETCH_MAX_ERRORS as int);
}

} // verus!
