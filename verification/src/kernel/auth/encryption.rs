//! Encryption of stored behavioral patterns: XOR with the master key
//! (a stand-in for an AEAD), sealed pattern blobs and constant-time
//! comparison.

use vstd::prelude::*;
use core::marker::PhantomData;

verus! {

/// Sealed pattern state: encrypted at rest (a type-level marker).
pub struct Sealed;

/// Open pattern state: decrypted for analysis.
pub enum Open<'a> {
    Lifetime(PhantomData<&'a ()>),
}

/// Encrypted behavioral pattern blob.
pub struct SealedPattern<State> {
    pub nonce: [u8; 12],
    pub tag: [u8; 16],
    pub ciphertext: Vec<u8>,
    _state: PhantomData<State>,
}

impl<State> SealedPattern<State> {
    pub closed spec fn spec_nonce(&self) -> [u8; 12] {
        self.nonce
    }

    pub closed spec fn spec_tag(&self) -> [u8; 16] {
        self.tag
    }

    pub closed spec fn spec_ciphertext(&self) -> Seq<u8> {
        self.ciphertext@
    }
}

impl SealedPattern<Sealed> {
    /// A sealed blob.
    pub fn new(nonce: [u8; 12], tag: [u8; 16], ciphertext: Vec<u8>) -> (r: Self)
        ensures
            r.spec_nonce() == nonce,
            r.spec_tag() == tag,
            r.spec_ciphertext() == ciphertext@,
    {
        SealedPattern { nonce, tag, ciphertext, _state: PhantomData }
    }

    /// Decrypts into the scratch buffer: the ciphertext is copied to the
    /// front of `scratch`, which is cut to the ciphertext's length and handed
    /// to `decrypt_fn` (with the ciphertext, the nonce and the tag), which
    /// decrypts it in place, hands the buffer back and parses it.  The view
    /// keeps the buffer, so that it can be scrubbed.
    pub fn open<T, F>(&self, scratch: Vec<u8>, decrypt_fn: F) -> (r: Result<SecureView<T>, CryptoError>)
        where
            F: FnOnce(&[u8], Vec<u8>, &[u8; 12], &[u8; 16]) -> (Vec<u8>, Result<T, CryptoError>),
        requires
            forall|c: &[u8], b: Vec<u8>, n: &[u8; 12], t: &[u8; 16]| decrypt_fn.requires((c, b, n, t)),
        ensures
            scratch@.len() < self.spec_ciphertext().len() ==> r == Err::<SecureView<T>, CryptoError>(
                CryptoError::BufferTooSmall,
            ),
            scratch@.len() >= self.spec_ciphertext().len() ==> exists|
                c: &[u8],
                b: Vec<u8>,
                out: (Vec<u8>, Result<T, CryptoError>),
            |
                {
                    &&& c@ == self.spec_ciphertext()
                    &&& b@ == self.spec_ciphertext()
                    &&& #[trigger] decrypt_fn.ensures((c, b, &self.spec_nonce(), &self.spec_tag()), out)
                    &&& match out.1 {
                        Ok(v) => r matches Ok(view) && view.value() == v && view.bytes() == out.0@,
                        Err(e) => r == Err::<SecureView<T>, CryptoError>(e),
                    }
                },
    {
        let len = self.ciphertext.len();
        if scratch.len() < len {
            return Err(CryptoError::BufferTooSmall);
        }
        let mut buffer = scratch;
        buffer.truncate(len);
        let mut i: usize = 0;
        while i < len
            invariant
                i <= len,
                len == self.ciphertext@.len(),
                buffer@.len() == len,
                forall|k: int| 0 <= k < i ==> #[trigger] buffer@[k] == self.ciphertext@[k],
            decreases len - i,
        {
            buffer.set(i, self.ciphertext[i]);
            i = i + 1;
        }
        proof {
            assert(buffer@ =~= self.ciphertext@);
        }
        let ct = self.ciphertext.as_slice();
        let ghost handed = buffer;
        let out = decrypt_fn(ct, buffer, &self.nonce, &self.tag);
        proof {
            assert(decrypt_fn.ensures((ct, handed, &self.spec_nonce(), &self.spec_tag()), out));
        }
        let (decrypted, parsed) = out;
        match parsed {
            Ok(value) => Ok(SecureView::new(decrypted, value)),
            Err(e) => Err(e),
        }
    }
}

/// Decrypted pattern with the buffer it was decrypted into.
pub struct SecureView<T> {
    buffer: Vec<u8>,
    parsed: T,
}

impl<T> SecureView<T> {
    pub closed spec fn value(&self) -> T {
        self.parsed
    }

    pub closed spec fn bytes(&self) -> Seq<u8> {
        self.buffer@
    }

    /// A view of `parsed`, decrypted from `buffer`.
    pub fn new(buffer: Vec<u8>, parsed: T) -> (r: Self)
        ensures
            r.value() == parsed,
            r.bytes() == buffer@,
    {
        SecureView { buffer, parsed }
    }

    /// The parsed pattern.
    pub fn get(&self) -> (r: &T)
        ensures
            *r == self.value(),
    {
        &self.parsed
    }

    /// Erases the decrypted bytes.
    pub fn scrub(&mut self)
        ensures
            final(self).value() == old(self).value(),
            final(self).bytes().len() == old(self).bytes().len(),
            forall|i: int| 0 <= i < final(self).bytes().len() ==> #[trigger] final(self).bytes()[i] == 0,
    {
        let mut i: usize = 0;
        while i < self.buffer.len()
            invariant
                i <= self.buffer@.len(),
                self.buffer@.len() == old(self).buffer@.len(),
                self.parsed == old(self).parsed,
                forall|k: int| 0 <= k < i ==> #[trigger] self.buffer@[k] == 0,
            decreases self.buffer@.len() - i,
        {
            self.buffer.set(i, 0);
            i = i + 1;
        }
    }
}

/// Encryption errors.
#[derive(Clone, Copy, PartialEq, Eq, Structural, Debug)]
pub enum CryptoError {
    BufferTooSmall,
    AuthenticationFailed,
    InvalidFormat,
    KeyNotInitialized,
}

/// The development master key: every byte 0x42.
pub open spec fn is_development_key(k: [u8; 32]) -> bool {
    forall|i: int| 0 <= i < 32 ==> #[trigger] k@[i] == 0x42
}

/// Installs the master key (the development key until a hardware source
/// exists).
pub fn init_keys(master_key: &mut Option<[u8; 32]>) -> (r: Result<(), &'static str>)
    ensures
        r is Ok,
        *final(master_key) matches Some(k) && is_development_key(k),
{
    *master_key = Some([0x42u8; 32]);
    Ok(())
}

/// The master key, once installed.
pub fn get_master_key(master_key: &Option<[u8; 32]>) -> (r: Result<[u8; 32], CryptoError>)
    ensures
        *master_key is None ==> r == Err::<[u8; 32], CryptoError>(CryptoError::KeyNotInitialized),
        *master_key matches Some(k) ==> r == Ok::<[u8; 32], CryptoError>(k),
{
    match master_key {
        Some(k) => Ok(*k),
        None => Err(CryptoError::KeyNotInitialized),
    }
}

/// Byte `i` of `data` XORed with the key byte it meets.
pub open spec fn xor_keystream(data: Seq<u8>, key: [u8; 32]) -> Seq<u8> {
    Seq::new(data.len(), |i: int| data[i] ^ key@[i % 32])
}

/// XOR encryption; the nonce and tag are all zeros.
pub fn encrypt_pattern(plaintext: &[u8], key: &[u8; 32]) -> (r: (Vec<u8>, [u8; 12], [u8; 16]))
    ensures
        r.0@ == xor_keystream(plaintext@, *key),
        forall|i: int| 0 <= i < 12 ==> #[trigger] r.1@[i] == 0,
        forall|i: int| 0 <= i < 16 ==> #[trigger] r.2@[i] == 0,
{
    let mut ciphertext: Vec<u8> = Vec::new();
    let mut i: usize = 0;
    while i < plaintext.len()
        invariant
            i <= plaintext@.len(),
            ciphertext@ == xor_keystream(plaintext@, *key).subrange(0, i as int),
        decreases plaintext@.len() - i,
    {
        ciphertext.push(plaintext[i] ^ key[i % 32]);
        i = i + 1;
        proof {
            assert(ciphertext@ =~= xor_keystream(plaintext@, *key).subrange(0, i as int));
        }
    }
    assert(ciphertext@ =~= xor_keystream(plaintext@, *key));
    (ciphertext, [0u8; 12], [0u8; 16])
}

/// XOR decryption into the front of `output`; an output shorter than the
/// ciphertext is refused.
pub fn decrypt_pattern(
    ciphertext: &[u8],
    output: &mut [u8],
    key: &[u8; 32],
    _nonce: &[u8; 12],
    _tag: &[u8; 16],
) -> (r: Result<(), CryptoError>)
    ensures
        r is Err <==> old(output)@.len() < ciphertext@.len(),
        r is Err ==> r == Err::<(), CryptoError>(CryptoError::BufferTooSmall) && final(output)@ == old(output)@,
        r is Ok ==> final(output)@ == xor_keystream(ciphertext@, *key) + old(output)@.skip(ciphertext@.len() as int),
{
    if output.len() < ciphertext.len() {
        return Err(CryptoError::BufferTooSmall);
    }
    let mut i: usize = 0;
    while i < ciphertext.len()
        invariant
            i <= ciphertext@.len(),
            ciphertext@.len() <= output@.len(),
            output@.len() == old(output)@.len(),
            output@ == xor_keystream(ciphertext@, *key).subrange(0, i as int) + old(output)@.skip(i as int),
        decreases ciphertext@.len() - i,
    {
        output[i] = ciphertext[i] ^ key[i % 32];
        i = i + 1;
        proof {
            assert(output@ =~= xor_keystream(ciphertext@, *key).subrange(0, i as int) + old(output)@.skip(i as int));
        }
    }
    assert(xor_keystream(ciphertext@, *key).subrange(0, ciphertext@.len() as int) =~= xor_keystream(ciphertext@, *key));
    Ok(())
}

/// Decrypting what was encrypted with the same key gives the plaintext
/// back.
pub proof fn lemma_decrypt_encrypt(plaintext: Seq<u8>, key: [u8; 32])
    ensures
        xor_keystream(xor_keystream(plaintext, key), key) == plaintext,
{
    let c = xor_keystream(plaintext, key);
    assert forall|i: int| 0 <= i < plaintext.len() implies #[trigger] xor_keystream(c, key)[i] == plaintext[i] by {
        let p = plaintext[i];
        let k = key@[i % 32];
        assert((p ^ k) ^ k == p) by (bit_vector);
    }
    assert(xor_keystream(c, key) =~= plaintext);
}

/// Comparison whose running time does not depend on where the inputs
/// differ.
pub fn constant_time_eq(a: &[u8], b: &[u8]) -> (r: bool)
    ensures
        r == (a@ == b@),
{
    if a.len() != b.len() {
        return false;
    }
    let mut diff: u8 = 0;
    let mut i: usize = 0;
    assert(a@.subrange(0, 0) =~= b@.subrange(0, 0));
    while i < a.len()
        invariant
            i <= a@.len(),
            a@.len() == b@.len(),
            (diff == 0) == (a@.subrange(0, i as int) == b@.subrange(0, i as int)),
        decreases a@.len() - i,
    {
        let x = a[i];
        let y = b[i];
        let d = diff;
        assert((d | (x ^ y)) == 0 <==> (d == 0 && x == y)) by (bit_vector);
        diff = d | (x ^ y);
        i = i + 1;
        proof {
            if a@.subrange(0, i as int) == b@.subrange(0, i as int) {
                assert(a@.subrange(0, i as int)[i - 1] == b@.subrange(0, i as int)[i - 1]);
                assert(a@.subrange(0, i - 1) =~= a@.subrange(0, i as int).drop_last());
                assert(b@.subrange(0, i - 1) =~= b@.subrange(0, i as int).drop_last());
            }
            if d == 0 && x == y {
                assert(a@.subrange(0, i as int) =~= b@.subrange(0, i as int));
            }
        }
    }
    proof {
        assert(a@.subrange(0, a@.len() as int) =~= a@);
        assert(b@.subrange(0, b@.len() as int) =~= b@);
    }
    diff == 0
}

} // verus!
