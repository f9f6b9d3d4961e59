use hwpers::crypto::distribution::{obfuscation_transform, DistributionDecryptor, MsvcRng};
use hwpers::crypto::decrypt_distribution_stream;

#[test]
fn test_msvc_rng_deterministic() {
    let mut rng1 = MsvcRng::new(12345);
    let mut rng2 = MsvcRng::new(12345);

    for _ in 0..10 {
        assert_eq!(rng1.rand(), rng2.rand());
    }
}

#[test]
fn test_obfuscation_transform() {
    let mut data = [0u8; 256];
    data[0] = 0x01;
    data[1] = 0x02;
    data[2] = 0x03;
    data[3] = 0x04;

    let before = data;
    obfuscation_transform(&mut data);

    assert_eq!(data[0..4], before[0..4]);
    assert_ne!(data[4..], before[4..]);
}

#[test]
fn test_record_data_too_short() {
    let short_data = [0u8; 100];
    let result = DistributionDecryptor::from_record_data(&short_data);
    assert!(result.is_err());
}

#[test]
fn msvc_rng_matches_c_runtime_sequence() {
    // The C runtime's rand() after srand(1): 41, 18467, 6334, 26500.
    let mut rng = MsvcRng::new(1);
    assert_eq!(rng.rand(), 41);
    assert_eq!(rng.rand(), 18467);
    assert_eq!(rng.rand(), 6334);
    assert_eq!(rng.rand(), 26500);
}

#[test]
fn msvc_rng_value_and_count_ranges() {
    let mut rng = MsvcRng::new(7);
    for _ in 0..100 {
        let c = rng.next_count();
        assert!((1..=16).contains(&c));
    }
    let mut a = MsvcRng::new(99);
    let mut b = MsvcRng::new(99);
    let v = a.next_value();
    assert_eq!(u32::from(v), b.rand() & 0xFF);
}

#[test]
fn obfuscation_transform_is_an_involution() {
    let mut data = [0u8; 256];
    for (i, b) in data.iter_mut().enumerate() {
        *b = (i * 7 + 3) as u8;
    }
    let before = data;
    obfuscation_transform(&mut data);
    obfuscation_transform(&mut data);
    assert_eq!(data, before);
}

#[test]
fn obfuscation_first_keystream_byte() {
    // With seed 0 the first drawn value is rand() from state 0:
    // state 2531011, rand = 38, so the byte at position 4 is XORed with 38.
    let mut data = [0u8; 256];
    obfuscation_transform(&mut data);
    assert_eq!(data[4], 38);
}

#[test]
fn short_record_error_names_the_length() {
    let result = DistributionDecryptor::from_record_data(&[0u8; 259]);
    match result {
        Err(hwpers::HwpError::ParseError(m)) => {
            assert_eq!(m, "Distribution record data too short: expected at least 260, got 259")
        }
        _ => panic!("expected a parse error"),
    }
}

#[test]
fn decrypt_empty_is_empty() {
    let record = [0u8; 260];
    let d = DistributionDecryptor::from_record_data(&record).unwrap();
    assert_eq!(d.decrypt(&[]).unwrap(), Vec::<u8>::new());
}

#[test]
fn decrypt_keeps_length_and_is_not_identity() {
    let record = [0x11u8; 300];
    let data: Vec<u8> = (0..37u8).collect();
    let out = decrypt_distribution_stream(&data, &record).unwrap();
    assert_eq!(out.len(), 37);
    assert_ne!(out, data);
    let d = DistributionDecryptor::from_record_data(&record).unwrap();
    assert_eq!(d.decrypt(&data).unwrap(), out);
}

#[test]
fn decrypt_known_aes_vector() {
    // FIPS-197 appendix C.1: key 000102..0f, plaintext 00112233..ff,
    // ciphertext 69c4e0d86a7b0430d8cdb78070b4c55a.
    // Build record data whose deobfuscated block holds that key at offset 4.
    let key: Vec<u8> = (0u8..16).collect();
    let mut block = [0u8; 256];
    block[0] = 0x00; // seed bytes; low four bits of the first give offset 4
    for i in 0..16 {
        block[4 + i] = key[i];
    }
    // Obfuscation is its own inverse: applying it yields the stored form.
    obfuscation_transform(&mut block);
    let mut record = vec![0u8; 4];
    record.extend_from_slice(&block);
    let d = DistributionDecryptor::from_record_data(&record).unwrap();
    let ct: [u8; 16] = [
        0x69, 0xc4, 0xe0, 0xd8, 0x6a, 0x7b, 0x04, 0x30, 0xd8, 0xcd, 0xb7, 0x80, 0x70, 0xb4, 0xc5, 0x5a,
    ];
    let pt = d.decrypt(&ct).unwrap();
    let expected: Vec<u8> = vec![
        0x00, 0x11, 0x22, 0x33, 0x44, 0x55, 0x66, 0x77, 0x88, 0x99, 0xaa, 0xbb, 0xcc, 0xdd, 0xee, 0xff,
    ];
    assert_eq!(pt, expected);
}
