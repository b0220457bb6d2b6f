use sterngate::checksum::BoschChecksumSolver;
use sterngate::map::{rom_backed, MapCategory, MapProvenance};

fn be_sum(rom: &[u8], start: usize, end: usize) -> u32 {
    let mut s: u32 = 0;
    let mut p = start;
    while p + 4 <= end {
        s = s.wrapping_add(u32::from_be_bytes([rom[p], rom[p + 1], rom[p + 2], rom[p + 3]]));
        p += 4;
    }
    s
}

#[test]
fn small_images_have_no_blocks() {
    let r = BoschChecksumSolver::verify(&vec![0u8; 0x80000]);
    assert_eq!(r.total_blocks, 0);
    assert!(!r.is_valid);
    assert_eq!(r.global_crc32, crc32fast::hash(&vec![0u8; 0x80000]));
}

#[test]
fn recalculate_then_verify_is_valid() {
    let mut rom: Vec<u8> = (0..0x100000u32).map(|i| (i.wrapping_mul(31) % 251) as u8).collect();
    let before = BoschChecksumSolver::verify(&rom);
    assert_eq!(before.total_blocks, 4);
    assert_eq!(before.blocks[2].start_address, 0x080000);
    assert_eq!(before.blocks[2].end_address, 0x0DFFDF);
    assert_eq!(before.blocks[0].calculated_sum, be_sum(&rom, 0, 0x03FFDF));
    assert_eq!(before.blocks[0].calculated_inv, !be_sum(&rom, 0, 0x03FFDF));
    let report = BoschChecksumSolver::recalculate_and_apply(&mut rom).unwrap();
    assert!(report.is_valid);
    assert_eq!(report.valid_blocks, 4);
    assert_eq!(report.global_crc32, crc32fast::hash(&rom));
    let after = BoschChecksumSolver::verify(&rom);
    assert!(after.is_valid);
    assert_eq!(after.valid_blocks, 4);
    assert_eq!(&rom[0x3FFE0..0x3FFE4], &before.blocks[0].calculated_sum.to_be_bytes());
    assert_eq!(&rom[0x3FFE4..0x3FFE8], &before.blocks[0].calculated_inv.to_be_bytes());
    for (a, b) in after.blocks.iter().zip(before.blocks.iter()) {
        assert_eq!(a.calculated_sum, b.calculated_sum);
        assert_eq!(a.stored_sum, b.calculated_sum);
    }
}

#[test]
fn all_zero_blocks_count_as_valid() {
    let r = BoschChecksumSolver::verify(&vec![0u8; 0x200000]);
    assert_eq!(r.total_blocks, 4);
    assert!(r.is_valid);
    assert_eq!(r.blocks[3].sum_address, 0x1FFFE0);
}

#[test]
fn map_labels_and_provenance() {
    assert_eq!(MapCategory::Boost.as_str(), "Turbocharger & Boost Control");
    assert_eq!(MapCategory::Emissions.as_str(), "Emissions (EGR / DPF / AdBlue)");
    assert_eq!(MapProvenance::default(), MapProvenance::Unverified);
    assert!(MapProvenance::Unverified.is_unverified());
    assert!(MapProvenance::Scanned.is_scanned());
    assert!(!MapProvenance::Fallback.is_scanned());
}

#[test]
fn is_rom_backed_rejects_out_of_range_and_mismatch() {
    let mut rom = vec![0xFF; 64];
    rom[10..12].copy_from_slice(&[0x12, 0x34]);
    assert!(rom_backed(10, &[0x12, 0x34], &rom));
    assert!(!rom_backed(10, &[0x12, 0x35], &rom));
    assert!(!rom_backed(63, &[0x12, 0x34], &rom));
    assert!(!rom_backed(u32::MAX, &[0x12], &rom));
    assert!(!rom_backed(10, &[], &rom));
}

#[test]
fn recalculating_twice_changes_nothing() {
    let mut rom: Vec<u8> = (0..0x100000u32).map(|i| (i.wrapping_mul(17) % 253) as u8).collect();
    BoschChecksumSolver::recalculate_and_apply(&mut rom).unwrap();
    let once = rom.clone();
    let second = BoschChecksumSolver::recalculate_and_apply(&mut rom).unwrap();
    assert_eq!(rom, once);
    assert!(second.is_valid);
}
