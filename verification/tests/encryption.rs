use sis_kernel::kernel::auth::encryption::{
    constant_time_eq, decrypt_pattern, encrypt_pattern, get_master_key, init_keys, CryptoError, SealedPattern,
    SecureView,
};
use sis_kernel::kernel::auth::fuzzy::{FuzzyError, FuzzyExtractor, PrivacyAmplifier};

#[test]
fn master_key_lifecycle() {
    let mut key: Option<[u8; 32]> = None;
    assert_eq!(get_master_key(&key), Err(CryptoError::KeyNotInitialized));
    assert_eq!(init_keys(&mut key), Ok(()));
    assert_eq!(get_master_key(&key), Ok([0x42u8; 32]));
}

#[test]
fn encrypt_then_decrypt_round_trip() {
    let mut key = [0u8; 32];
    for (i, k) in key.iter_mut().enumerate() {
        *k = (i as u8).wrapping_mul(7).wrapping_add(1);
    }
    let plaintext: Vec<u8> = (0..100u8).collect();
    let (ct, nonce, tag) = encrypt_pattern(&plaintext, &key);
    assert_eq!(nonce, [0u8; 12]);
    assert_eq!(tag, [0u8; 16]);
    assert_eq!(ct.len(), plaintext.len());
    assert_eq!(ct[0], 0 ^ key[0]);
    assert_eq!(ct[33], 33 ^ key[1]);
    let mut out = vec![0xEEu8; 104];
    assert_eq!(decrypt_pattern(&ct, &mut out, &key, &nonce, &tag), Ok(()));
    assert_eq!(&out[..100], &plaintext[..]);
    // Bytes past the ciphertext are left alone.
    assert_eq!(&out[100..], &[0xEE; 4]);
    let mut small = vec![0u8; 10];
    assert_eq!(decrypt_pattern(&ct, &mut small, &key, &nonce, &tag), Err(CryptoError::BufferTooSmall));
    assert_eq!(small, vec![0u8; 10]);
}

#[test]
fn constant_time_comparison() {
    assert!(constant_time_eq(b"abc", b"abc"));
    assert!(!constant_time_eq(b"abc", b"abd"));
    assert!(!constant_time_eq(b"abc", b"ab"));
    assert!(constant_time_eq(b"", b""));
}

#[test]
fn sealed_blob_and_secure_view() {
    let s = SealedPattern::new([1; 12], [2; 16], vec![3, 4]);
    assert_eq!(s.nonce, [1; 12]);
    assert_eq!(s.ciphertext, vec![3, 4]);
    let mut v = SecureView::new(vec![9, 9, 9], 77u32);
    assert_eq!(*v.get(), 77);
    v.scrub();
    assert_eq!(*v.get(), 77);
}

fn reference_extract(data: &[u8]) -> [u8; 32] {
    let p = [0x123456789ABCDEF0u64, 0xFEDCBA9876543210, 0x0F1E2D3C4B5A6978, 0x8796A5B4C3D2E1F0];
    let mut h = p[0];
    for chunk in data.chunks(8) {
        let mut w = 0u64;
        for (j, b) in chunk.iter().enumerate() {
            w |= (*b as u64) << (8 * j);
        }
        h = h.wrapping_mul(p[1]).wrapping_add(w).wrapping_mul(p[2]).wrapping_add(p[3]);
    }
    let mut out = [0u8; 32];
    let mut k = h.wrapping_mul(p[0]);
    for i in 0..4 {
        if i > 0 {
            k = k.wrapping_mul(p[i]);
        }
        out[8 * i..8 * i + 8].copy_from_slice(&k.to_le_bytes());
    }
    out
}

#[test]
fn privacy_amplification() {
    let amp = PrivacyAmplifier::new(256);
    assert_eq!(amp.output_bits, 256);
    assert_eq!(amp.extract(&[1, 2, 3]), Err(FuzzyError::InsufficientData));
    let data: Vec<u8> = (1..=19u8).collect();
    let key = amp.extract(&data).unwrap();
    assert_eq!(key, reference_extract(&data));
    // Deterministic, and sensitive to the input.
    assert_eq!(amp.extract(&data).unwrap(), key);
    let mut other = data.clone();
    other[18] ^= 1;
    assert_ne!(amp.extract(&other).unwrap(), key);
}

#[test]
fn open_decrypts_into_scratch() {
    let s = SealedPattern::new([1; 12], [2; 16], vec![3, 4, 5]);
    let too_small = s.open(vec![0u8; 2], |_c: &[u8], b: Vec<u8>, _n: &[u8; 12], _t: &[u8; 16]| (b, Ok(0u32)));
    assert!(matches!(too_small, Err(CryptoError::BufferTooSmall)));
    // The buffer arrives holding the ciphertext; here decryption flips each byte.
    let view = s
        .open(vec![9u8; 8], |c: &[u8], b: Vec<u8>, _n: &[u8; 12], _t: &[u8; 16]| {
            assert_eq!(b, c.to_vec());
            let plain: Vec<u8> = b.iter().map(|x| !x).collect();
            let sum = plain.iter().map(|x| *x as u32).sum::<u32>();
            (plain, Ok(sum))
        })
        .unwrap();
    assert_eq!(*view.get(), 252 + 251 + 250);
    let failed = s.open(vec![0u8; 3], |_c: &[u8], b: Vec<u8>, _n: &[u8; 12], _t: &[u8; 16]| {
        (b, Err::<u32, CryptoError>(CryptoError::AuthenticationFailed))
    });
    assert!(matches!(failed, Err(CryptoError::AuthenticationFailed)));
}

#[test]
fn fuzzy_extract_then_reconstruct() {
    let master = [0x42u8; 32];
    let mut fx = FuzzyExtractor::new();
    let data: Vec<u8> = (0..64u32).map(|i| (i * 7 + 3) as u8).collect();
    assert!(matches!(fx.extract(&data[..31], &master), Err(FuzzyError::InsufficientData)));
    let enrolled = fx.extract(&data, &master).unwrap();
    assert_eq!(enrolled.helper_data.len(), 28 + 64);
    assert_eq!(fx.stats.extractions, 1);
    // The enrolled measurement gives the enrolled key back.
    assert_eq!(fx.reconstruct(&data, &enrolled.helper_data, &master), Ok(enrolled.key));
    assert_eq!(fx.stats.reconstructions, 1);
    // A one-bit error in a checked byte is corrected.
    let mut noisy = data.clone();
    noisy[0] ^= 1;
    assert_eq!(fx.reconstruct(&noisy, &enrolled.helper_data, &master), Ok(enrolled.key));
    // Errors.
    assert_eq!(fx.reconstruct(&data[..31], &enrolled.helper_data, &master), Err(FuzzyError::InsufficientData));
    assert_eq!(fx.reconstruct(&data, &enrolled.helper_data[..27], &master), Err(FuzzyError::InsufficientData));
    assert_eq!(fx.reconstruct(&data[..40], &enrolled.helper_data, &master), Err(FuzzyError::SizeMismatch));
}
