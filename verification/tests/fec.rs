use sterngate::fec::{FecStatus, GaloisField, ReedSolomonCodec, rs_generator_poly};

#[test]
fn test_gf256_arithmetic() {
    let gf = GaloisField::new();
    assert_eq!(gf.mul(0, 55), 0);
    assert_eq!(gf.mul(1, 42), 42);
    assert_eq!(gf.mul(2, 2), 4);
    assert_eq!(gf.inv(1), 1);
    let a = 173;
    let inv_a = gf.inv(a);
    assert_eq!(gf.mul(a, inv_a), 1);
    assert_eq!(gf.div(50, 50), 1);
}

#[test]
fn test_rs_codec_clean_payload() {
    let codec = ReedSolomonCodec::default_codec();
    let mut msg = b"W211 OM642 Throttle Sharpening and Agility Coding Payload".to_vec();
    let parity = codec.encode(&msg);

    let status = codec.decode_and_repair(&mut msg, &parity);
    assert_eq!(status, FecStatus::Intact);
}

#[test]
fn test_rs_codec_single_and_multi_byte_repair() {
    let codec = ReedSolomonCodec::default_codec();
    let original_msg = b"Engine speed limiter VMax=250km/h DID 0x0110 EDC16CP31 OM642".to_vec();
    let parity = codec.encode(&original_msg);

    let mut corrupted_msg = original_msg.clone();
    corrupted_msg[5] ^= 0x55;
    corrupted_msg[18] ^= 0xAA;
    corrupted_msg[32] ^= 0x0F;

    let status = codec.decode_and_repair(&mut corrupted_msg, &parity);
    match status {
        FecStatus::Repaired {
            corrected_byte_count,
            repaired_offsets,
        } => {
            assert_eq!(corrected_byte_count, 3);
            assert_eq!(repaired_offsets, vec![5, 18, 32]);
            assert_eq!(corrupted_msg, original_msg);
        }
        other => panic!("Expected Repaired, got {:?}", other),
    }
}

#[test]
fn test_rs_codec_max_capacity_repair_8_errors() {
    let codec = ReedSolomonCodec::default_codec();
    let mut original_msg = vec![0x42; 200];
    for (i, b) in original_msg.iter_mut().enumerate() {
        *b = (i & 0xFF) as u8;
    }
    let parity = codec.encode(&original_msg);

    let mut corrupted_msg = original_msg.clone();
    for &offset in &[2, 15, 40, 75, 110, 145, 180, 195] {
        corrupted_msg[offset] ^= 0x7E;
    }

    let status = codec.decode_and_repair(&mut corrupted_msg, &parity);
    match status {
        FecStatus::Repaired {
            corrected_byte_count,
            ..
        } => {
            assert_eq!(corrected_byte_count, 8);
            assert_eq!(corrupted_msg, original_msg);
        }
        other => panic!("Expected Repaired for 8 errors, got {:?}", other),
    }
}

#[test]
fn test_rs_codec_unrecoverable_exceeds_capacity() {
    let codec = ReedSolomonCodec::default_codec();
    let original_msg = vec![0x10; 100];
    let parity = codec.encode(&original_msg);

    let mut corrupted_msg = original_msg.clone();
    for i in 0..10 {
        corrupted_msg[i * 8] ^= 0xFF;
    }

    let status = codec.decode_and_repair(&mut corrupted_msg, &parity);
    assert!(matches!(status, FecStatus::Unrecoverable { .. }));
}

#[test]
fn gf_field_laws_on_samples() {
    let gf = GaloisField::new();
    for a in [3u8, 29, 173, 255] {
        for b in [7u8, 88, 200] {
            assert_eq!(gf.mul(a, b), gf.mul(b, a));
            assert_eq!(gf.div(gf.mul(a, b), b), a);
        }
        assert_eq!(gf.mul(a, gf.inv(a)), 1);
    }
    // 0x53 * 0xCA = 0x01 under the 0x11D polynomial is not assumed; check a known product instead.
    assert_eq!(gf.mul(0x80, 2), 0x1D);
}

#[test]
fn generator_poly_has_parity_roots() {
    let gf = GaloisField::new();
    let g = rs_generator_poly(16);
    assert_eq!(g.len(), 17);
    assert_eq!(g[0], 1);
    let mut root = 1u8;
    for _ in 0..16 {
        assert_eq!(gf.poly_eval(&g, root), 0);
        root = gf.mul(root, 2);
    }
}

#[test]
fn truncated_parity_is_reported() {
    let codec = ReedSolomonCodec::default_codec();
    let mut msg = vec![1u8, 2, 3];
    let parity = vec![0u8; 10];
    let status = codec.decode_and_repair(&mut msg, &parity);
    assert_eq!(
        status,
        FecStatus::Unrecoverable {
            reason: "Parity buffer truncated: expected 16 bytes, received 10 bytes".to_string()
        }
    );
    assert_eq!(msg, vec![1u8, 2, 3]);
}

#[test]
fn parity_of_two_blocks() {
    let codec = ReedSolomonCodec::new(4, 2);
    let msg = vec![1u8, 2, 3, 4, 5];
    let parity = codec.encode(&msg);
    assert_eq!(parity.len(), 4);
    assert_eq!(&parity[..2], codec.encode_block(&[1, 2, 3, 4]).as_slice());
    assert_eq!(&parity[2..], codec.encode_block(&[5, 0, 0, 0]).as_slice());
}

#[test]
fn one_damaged_byte_per_block_is_restored() {
    // Blocks of 5 data bytes with 2 parity bytes: one damaged byte per block is correctable.
    let codec = ReedSolomonCodec::new(5, 2);
    let original: Vec<u8> = (0u8..23).map(|i| i.wrapping_mul(37).wrapping_add(11)).collect();
    let parity = codec.encode(&original);
    for shift in 0..5usize {
        let mut damaged = original.clone();
        let mut expected_offsets = Vec::new();
        let mut block_start = 0;
        while block_start < damaged.len() {
            let at = block_start + shift;
            if at < damaged.len() {
                damaged[at] ^= 0xA5 ^ (shift as u8);
                expected_offsets.push(at);
            }
            block_start += 5;
        }
        let status = codec.decode_and_repair(&mut damaged, &parity);
        assert_eq!(damaged, original);
        assert_eq!(
            status,
            FecStatus::Repaired {
                corrected_byte_count: expected_offsets.len(),
                repaired_offsets: expected_offsets
            }
        );
    }
}
