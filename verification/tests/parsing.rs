use sterngate::error::SterngateError;
use sterngate::garage::{parse_git_log, vehicle_dir_name};
use sterngate::hex::{parse_hex_bytes, try_parse_hex_bytes};
use sterngate::i18n::Language;
use sterngate::modpack::ModTargetFilter;
use sterngate::profile::{ModuleDef, ParameterLayout};

#[test]
fn hex_bytes_are_decoded() {
    assert_eq!(parse_hex_bytes("0x1A2B").unwrap(), vec![0x1A, 0x2B]);
    assert_eq!(parse_hex_bytes("  0a0bFF ").unwrap(), vec![0x0A, 0x0B, 0xFF]);
    assert_eq!(parse_hex_bytes("0x0X10").unwrap(), vec![0x10]);
    assert_eq!(
        parse_hex_bytes("0X0x10").unwrap_err(),
        "Invalid hex byte at index 0: invalid digit found in string"
    );
    assert_eq!(parse_hex_bytes("").unwrap(), Vec::<u8>::new());
    assert_eq!(parse_hex_bytes("+a").unwrap(), vec![0x0A]);
}

#[test]
fn hex_bytes_errors() {
    assert_eq!(
        parse_hex_bytes("abc").unwrap_err(),
        "Hex string must have an even number of characters: 'abc'"
    );
    assert_eq!(
        parse_hex_bytes("00zz").unwrap_err(),
        "Invalid hex byte at index 2: invalid digit found in string"
    );
    assert!(try_parse_hex_bytes("0é0").is_none());
}

fn module(tx: &str) -> ModuleDef {
    ModuleDef {
        name: "Engine".into(),
        names: vec![("de".into(), "Motor".into())],
        tx_id: tx.into(),
        rx_id: "0x7E8".into(),
        protocol: "UDS".into(),
        seed_key_algo: None,
    }
}

#[test]
fn module_names_and_ids() {
    let m = module("0x7E0");
    assert_eq!(m.localized_name(Language::De), "Motor");
    assert_eq!(m.localized_name(Language::Sv), "Engine");
    assert_eq!(m.tx_can_id().unwrap(), 0x7E0);
    assert_eq!(m.rx_can_id().unwrap(), 0x7E8);
    assert_eq!(module("18DA10F1").tx_can_id().unwrap(), 0x18DA10F1);
    match module("0xZZ").tx_can_id() {
        Err(SterngateError::ProfileError(msg)) => {
            assert_eq!(msg, "Invalid tx_id 0xZZ: invalid digit found in string")
        }
        _ => panic!("expected profile error"),
    }
    match module("0x").tx_can_id() {
        Err(SterngateError::ProfileError(msg)) => {
            assert_eq!(msg, "Invalid tx_id 0x: cannot parse integer from empty string")
        }
        _ => panic!("expected profile error"),
    }
    match module("0x123456789").tx_can_id() {
        Err(SterngateError::ProfileError(msg)) => {
            assert_eq!(msg, "Invalid tx_id 0x123456789: number too large to fit in target type")
        }
        _ => panic!("expected profile error"),
    }
}

#[test]
fn git_log_lines_become_commits() {
    let text = "abc123|Kim|2026-01-02 10:00:00 +0100|save coding\r\nbroken line\ndef456|Kev|2026-01-03|rollback|extra";
    let commits = parse_git_log(text);
    assert_eq!(commits.len(), 2);
    assert_eq!(commits[0].hash, "abc123");
    assert_eq!(commits[0].author, "Kim");
    assert_eq!(commits[0].message, "save coding");
    assert_eq!(commits[1].date, "2026-01-03");
    assert_eq!(commits[1].message, "rollback");
    assert!(parse_git_log("").is_empty());
}

#[test]
fn vehicle_dir_is_trimmed_upper_vin() {
    assert_eq!(vehicle_dir_name("  wdb2110061a123456 "), "WDB2110061A123456");
}

fn target(chassis: &[&str], hw: &[&str]) -> ModTargetFilter {
    ModTargetFilter {
        chassis: chassis.iter().map(|s| s.to_string()).collect(),
        ecu_name: "EDC16".into(),
        tx_id: 0x7E0,
        rx_id: 0x7E8,
        compatible_hw_ids: hw.iter().map(|s| s.to_string()).collect(),
        compatible_sw_ids: vec![],
        min_battery_mv: 12000,
        requires_engine_off: true,
    }
}

#[test]
fn target_filter_matches_vin_and_hardware() {
    let t = target(&["w211"], &["0281013854"]);
    assert!(t.matches_chassis("WDB2110061A123456"));
    assert!(t.matches_chassis("wdb2110061a123456"));
    assert!(!t.matches_chassis("WDD2040081A123456"));
    assert!(target(&[], &[]).matches_chassis("anything"));
    assert!(t.matches_hardware("HW 0281013854 rev B"));
    assert!(!t.matches_hardware("0281013999"));
    assert!(target(&[], &[]).matches_hardware("x"));
}

fn layout(did: &str, offset: usize, length: usize) -> ParameterLayout {
    ParameterLayout {
        id: "trans_temp".into(),
        name: "trans_temp".into(),
        module: "TCM".into(),
        did: did.into(),
        byte_offset: offset,
        length,
    }
}

fn reason(r: Result<sterngate::profile::RawParameter, SterngateError>) -> String {
    match r {
        Err(SterngateError::ParameterParseError { name, reason }) => {
            assert_eq!(name, "trans_temp");
            reason
        }
        _ => panic!("expected a parameter error"),
    }
}

#[test]
fn test_parameter_scaling() {
    // 120 (0x78) read from a positive 0x22 response; scaled by the caller (120 - 40 = 80 °C)
    let raw = layout("0x2001", 0, 1).parse_raw(&[0x62, 0x20, 0x01, 120]).unwrap();
    assert_eq!(raw.raw, 120);
    assert_eq!(raw.raw_hex, "78");
    assert_eq!(raw.raw as f64 * 1.0 - 40.0, 80.0);
}

#[test]
fn parameter_raw_reading_layouts_and_errors() {
    let r = layout("2001", 1, 2).parse_raw(&[0x00, 0x12, 0x34, 0x56]).unwrap();
    assert_eq!(r.raw, 0x1234);
    assert_eq!(r.raw_hex, "12 34");
    let r = layout("0x10", 0, 4).parse_raw(&[0x61, 0x10, 0xDE, 0xAD, 0xBE, 0xEF]).unwrap();
    assert_eq!(r.raw, 0xDEADBEEF);
    assert_eq!(r.raw_hex, "DE AD BE EF");
    assert_eq!(
        reason(layout("0x2002", 0, 1).parse_raw(&[0x62, 0x20, 0x01, 120])),
        "Mismatched DID response: expected 0x2002, got 0x2001"
    );
    assert_eq!(
        reason(layout("0xG1", 0, 1).parse_raw(&[0x62, 0x20, 0x01, 120])),
        "Invalid hex DID 0xG1: invalid digit found in string"
    );
    assert_eq!(
        reason(layout("0x2001", 0, 2).parse_raw(&[0x62, 0x20, 0x01, 120])),
        "Payload too short for length 2: available 1"
    );
    assert_eq!(
        reason(layout("0x2001", 0, 3).parse_raw(&[0x62, 0x20, 0x01, 1, 2, 3])),
        "Unsupported byte length: 3"
    );
}
