use sha2::{Digest, Sha256};
use sterngate::flash::{
    FirmwareSignatures, FirmwareVault, FirmwareVaultEntry, FlashProgress, FlashState,
};

fn image() -> Vec<u8> {
    let mut v = vec![0u8; 4096];
    v[100..110].copy_from_slice(b"1037394113");
    v[200..210].copy_from_slice(b"0281011425");
    v[300..315].copy_from_slice(b"A 646 150 08 79");
    v[400..420].copy_from_slice(b"EDC16C31/1.2 OM646 ;");
    v
}

#[test]
fn signatures_are_extracted() {
    let data = image();
    let s = FirmwareSignatures::extract(&data);
    assert_eq!(s.bosch_hw_id.as_deref(), Some("0281011425"));
    assert_eq!(s.bosch_sw_id.as_deref(), Some("1037394113"));
    assert_eq!(s.oem_part_number.as_deref(), Some("A 646 150 08 79"));
    assert_eq!(s.project_name.as_deref(), Some("EDC16C31/1.2 OM646"));
    assert_eq!(s.file_size_bytes, 4096);
    assert_eq!(s.crc32_checksum, crc32fast::hash(&data));
    assert_eq!(s.sha256_checksum, format!("{:x}", Sha256::digest(&data)));
}

#[test]
fn compact_part_number_and_missing_fields() {
    let mut data = vec![0xFFu8; 64];
    data[10..21].copy_from_slice(b"A6461500879");
    let s = FirmwareSignatures::extract(&data);
    assert_eq!(s.oem_part_number.as_deref(), Some("A6461500879"));
    assert_eq!(s.bosch_hw_id, None);
    assert_eq!(s.project_name, None);
    let e = FirmwareSignatures::extract(&[]);
    assert_eq!(e.sha256_checksum, "e3b0c44298fc1c149afbf4c8996fb92427ae41e4649b934ca495991b7852b855");
}

#[test]
fn flash_states_and_progress() {
    assert!(!FlashState::Idle.is_locked());
    assert!(FlashState::Erasing.is_locked());
    assert!(!FlashState::Aborted.is_locked());
    let p = FlashProgress::default();
    assert_eq!(p.state, FlashState::Idle);
    assert_eq!(p.log, "Idle - No flash in progress");
}

fn entry(hw: &str, sw: &str) -> FirmwareVaultEntry {
    let mut data = vec![0u8; 64];
    data[0..10].copy_from_slice(hw.as_bytes());
    data[20..30].copy_from_slice(sw.as_bytes());
    FirmwareVault::entry_for_file("vault/a.BIN", "a.BIN", "BIN", &data).unwrap()
}

#[test]
fn vault_entries_and_upgrade() {
    assert!(FirmwareVault::entry_for_file("x.txt", "x.txt", "txt", &[1, 2]).is_none());
    let e = entry("0281011425", "1037394113");
    assert_eq!(e.format, "Raw Flash Binary (.bin)");
    let same = FirmwareVault::find_upgrade_recommendation(&[e.clone()], "0281011425", "1037394113");
    assert!(same.is_none());
    let rec = FirmwareVault::find_upgrade_recommendation(&[e.clone()], "02810114", "1037000000")
        .expect("recommendation");
    assert_eq!(rec.target_module, "EDC16");
    assert_eq!(rec.reason, "Local calibration 1037394113 supersedes connected calibration 1037000000");
    assert!(rec.can_stage);
    assert_eq!(rec.recommended_file, e);
    assert!(FirmwareVault::find_upgrade_recommendation(&[e], "0281", "x").is_none());
}

#[test]
fn checked_upgrade_search_reports_a_cut_character() {
    let e = entry("0281011425", "1037394113");
    let ok = FirmwareVault::try_find_upgrade_recommendation(&[e.clone()], "02810114", "1037000000");
    assert!(matches!(ok, Ok(Some(_))));
    assert!(matches!(
        FirmwareVault::try_find_upgrade_recommendation(&[e.clone()], "0281011425", "1037394113"),
        Ok(None)
    ));
    assert!(FirmwareVault::try_find_upgrade_recommendation(&[e], "028101142é", "x").is_err());
}
