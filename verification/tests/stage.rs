use sterngate::detector::BoschMapDetector;
use sterngate::error::SterngateError;
use sterngate::map::MapProvenance;
use sterngate::modpack::ModAction;
use sterngate::stage::StageGenerator;

fn test_rom_with_svbl() -> Vec<u8> {
    let mut rom = vec![0xFF; 0x20_0000];
    let svbl = 2350u16.to_be_bytes();
    rom[0x1C2000] = svbl[0];
    rom[0x1C2001] = svbl[1];
    for i in [0x1C1FFE, 0x1C1FFF, 0x1C2002, 0x1C2003] {
        rom[i] = 0x00;
    }
    rom
}

#[test]
fn require_rom_backed_rejects_mislabelled_scanned_map() {
    let rom = test_rom_with_svbl();
    let r = StageGenerator::require_rom_backed("Forged", 0x1C2000, MapProvenance::Scanned, &[0x12, 0x34], &rom);
    match r {
        Err(SterngateError::PreFlightCheckFailed(m)) => assert_eq!(
            m,
            "refusing to emit flash patch for 'Forged' at 0x1C2000: provenance Scanned, rom_backed=false (map was not located in this ROM)"
        ),
        _ => panic!("expected a refusal"),
    }
}

#[test]
fn require_rom_backed_accepts_true_scan_hit() {
    let rom = test_rom_with_svbl();
    let (start, end) = BoschMapDetector::calibration_area(rom.len()).unwrap();
    let addr = BoschMapDetector::scan_svbl(&rom, start, end).unwrap();
    assert_eq!(addr, 0x1C2000);
    let raw = &rom[addr..addr + 2];
    assert!(StageGenerator::require_rom_backed("Single Value Boost Limiter (SVBL)", addr as u32, MapProvenance::Scanned, raw, &rom).is_ok());
    assert!(StageGenerator::require_rom_backed("SVBL", addr as u32, MapProvenance::Fallback, raw, &rom).is_err());
}

#[test]
fn calibration_areas() {
    assert_eq!(BoschMapDetector::calibration_area(0x3FFFF), None);
    assert_eq!(BoschMapDetector::calibration_area(0x40000), Some((0x060000, 0x3FFF0)));
    assert_eq!(BoschMapDetector::calibration_area(0x100000), Some((0x0E0000, 0x0FFFF0)));
    assert_eq!(BoschMapDetector::calibration_area(0x200000), Some((0x1C0000, 0x1FFFF0)));
}

#[test]
fn svbl_scan_skips_pressure_tables() {
    let mut rom = vec![0x00; 0x20_0000];
    // a table of plausible pressures is no single value
    for (k, v) in [1500u16, 2200, 2500].iter().enumerate() {
        let b = v.to_be_bytes();
        rom[0x1C0100 + 2 * k] = b[0];
        rom[0x1C0101 + 2 * k] = b[1];
    }
    let b = 2400u16.to_be_bytes();
    rom[0x1C0400] = b[0];
    rom[0x1C0401] = b[1];
    assert_eq!(BoschMapDetector::scan_svbl(&rom, 0x1C0000, 0x1FFFF0), Some(0x1C0400));
    assert_eq!(BoschMapDetector::scan_svbl(&rom, 0x1C0402, 0x1FFFF0), None);
}

#[test]
fn torque_limiter_scan_finds_axis_and_row() {
    let mut rom = vec![0x00; 0x20_0000];
    let at = 0x1C1000;
    for k in 0..16usize {
        let rpm = (800 + 250 * k as u16).to_be_bytes();
        rom[at + 2 * k] = rpm[0];
        rom[at + 2 * k + 1] = rpm[1];
        let nm = (2100 + 10 * k as u16).to_be_bytes();
        rom[at + 32 + 2 * k] = nm[0];
        rom[at + 32 + 2 * k + 1] = nm[1];
    }
    assert_eq!(BoschMapDetector::scan_torque_limiter(&rom, 0x1C0000, 0x1FFFF0), Some(at));
    // a row value outside 100..=800 Nm disqualifies it
    rom[at + 32] = 0x00;
    rom[at + 33] = 0x10;
    assert_eq!(BoschMapDetector::scan_torque_limiter(&rom, 0x1C0000, 0x1FFFF0), None);
}

#[test]
fn patch_and_rollback_pair() {
    let (patch, rollback) = StageGenerator::patch_with_rollback(
        "Torque Limiter",
        0x1C2020,
        vec![1, 2],
        vec![3, 4],
        "Stage 1: +18% Peak Torque (430 Nm ceiling)",
        "Stock: Restore OEM Torque Limiter",
        MapProvenance::Scanned,
    );
    assert_eq!(
        patch,
        ModAction::PatchFlashMap {
            map_name: "Torque Limiter".into(),
            address_offset: 0x1C2020,
            data: vec![1, 2],
            expected_original_data: Some(vec![3, 4]),
            description: "Stage 1: +18% Peak Torque (430 Nm ceiling)".into(),
            provenance: MapProvenance::Scanned,
        }
    );
    assert_eq!(
        rollback,
        ModAction::PatchFlashMap {
            map_name: "Torque Limiter".into(),
            address_offset: 0x1C2020,
            data: vec![3, 4],
            expected_original_data: None,
            description: "Stock: Restore OEM Torque Limiter".into(),
            provenance: MapProvenance::Scanned,
        }
    );
}
