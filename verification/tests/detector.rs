use sterngate::detector::BoschMapDetector;

#[test]
fn find_dtc_offset_never_panics_on_short_or_empty_rom() {
    assert!(BoschMapDetector::find_dtc_offset(&[], "P0401").is_none());
    assert!(BoschMapDetector::find_dtc_offset(&vec![0xFF; 0x7FFFF], "P0401").is_none());
    assert!(BoschMapDetector::find_dtc_offset(&vec![0xFF; 0x1F_FFFF], "P0401").is_none());
}

#[test]
fn find_dtc_offset_returns_none_when_mask_byte_past_eof() {
    let mut rom = vec![0xFF; 0x80002];
    rom[0x80000] = 0x04;
    rom[0x80001] = 0x01;
    assert!(BoschMapDetector::find_dtc_offset(&rom, "P0401").is_none());
}

#[test]
fn find_dtc_offset_returns_unique_hit_with_mask() {
    let mut rom = vec![0xFF; 0x10_0000];
    rom[0x90000..0x90003].copy_from_slice(&[0x04, 0x01, 0x03]);
    assert_eq!(
        BoschMapDetector::find_dtc_offset(&rom, "P0401"),
        Some((0x90000, 0x03))
    );
}

#[test]
fn find_dtc_offset_is_none_when_pattern_is_ambiguous() {
    let mut rom = vec![0xFF; 0x10_0000];
    rom[0x90000..0x90003].copy_from_slice(&[0x04, 0x01, 0x03]);
    rom[0xA0000..0xA0003].copy_from_slice(&[0x04, 0x01, 0x03]);
    assert!(BoschMapDetector::find_dtc_offset(&rom, "P0401").is_none());
}

#[test]
fn find_dtc_offset_accepts_little_endian_lower_case_and_spaces() {
    let mut rom = vec![0xFF; 0x10_0000];
    rom[0x95000..0x95003].copy_from_slice(&[0x01, 0x04, 0x7F]);
    assert_eq!(
        BoschMapDetector::find_dtc_offset(&rom, "  p0401 "),
        Some((0x95000, 0x7F))
    );
    assert!(BoschMapDetector::find_dtc_offset(&rom, "PXYZ").is_none());
    assert!(BoschMapDetector::find_dtc_offset(&rom, "P1FFFF").is_none());
}

#[test]
fn find_dtc_offset_ignores_hits_before_region() {
    let mut rom = vec![0xFF; 0x10_0000];
    rom[0x100..0x103].copy_from_slice(&[0x04, 0x01, 0x03]);
    assert!(BoschMapDetector::find_dtc_offset(&rom, "P0401").is_none());
}
