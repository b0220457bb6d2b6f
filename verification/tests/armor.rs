use sterngate::armor::{decode_armor_payload, encode_to_armor, try_decode_armor_payload, ArmorPayload, ARMOR_FOOTER, ARMOR_HEADER};
use sterngate::error::SterngateError;
use sterngate::modpack::{
    verify_payload, ModAction, ModCategory, ModIntegrity, ModMetadata, ModRiskLevel, ModTargetFilter, SterngateMod,
};

fn sample_json() -> Vec<u8> {
    br#"[[{"type":"write_did","did":272,"data":[1,44],"bitmask":null,"expected_original_data":null,"description":"Speed limiter threshold adjustment"}],[]]"#.to_vec()
}

fn sample_mod(json: &[u8]) -> SterngateMod {
    let metadata = ModMetadata {
        mod_id: "w211-om642-throttle-agility".into(),
        name: "W211 OM642 Agility Throttle Response".into(),
        version: "1.0.0".into(),
        author: "TunerKev".into(),
        description: "Sharpens low-RPM accelerator pedal mapping and removes lag".into(),
        category: ModCategory::Performance,
        risk_level: ModRiskLevel::Moderate,
        instructions: Some("Ignition ON, Engine OFF".into()),
        created_at: "2026-09-14T12:00:00Z".into(),
    };
    let target = ModTargetFilter {
        chassis: vec!["W211".into(), "S211".into()],
        ecu_name: "EDC16".into(),
        tx_id: 0x7E0,
        rx_id: 0x7E8,
        compatible_hw_ids: vec!["0281013854".into()],
        compatible_sw_ids: vec![],
        min_battery_mv: 12000,
        requires_engine_off: true,
    };
    let actions = vec![ModAction::WriteDid {
        did: 0x0110,
        data: vec![0x01, 0x2C],
        bitmask: None,
        expected_original_data: None,
        description: "Speed limiter threshold adjustment".into(),
    }];
    SterngateMod {
        metadata,
        target,
        actions,
        rollback_actions: vec![],
        integrity: ModIntegrity::for_payload(json),
    }
}

fn encoded(r: Result<ArmorPayload, SterngateError>) -> Vec<u8> {
    match r {
        Ok(ArmorPayload::Encoded(b)) => b,
        Ok(ArmorPayload::Json(s)) => panic!("unexpected JSON {s}"),
        Err(e) => panic!("unexpected error {e:?}"),
    }
}

#[test]
fn test_armor_encode_and_decode_roundtrip() {
    let json = sample_json();
    let original = sample_mod(&json);
    let armored = encode_to_armor(&original, &json);
    assert!(armored.contains(ARMOR_HEADER));
    assert!(armored.contains(ARMOR_FOOTER));
    assert!(armored.contains("TunerKev"));
    assert!(armored.contains("Target-Chassis: W211, S211\n"));
    assert!(armored.contains("Target-ECU: EDC16 (0x7E0)\n"));
    assert!(armored.contains(&format!("CRC32: {:08X}\n", original.integrity.payload_crc32)));
    let decoded = encoded(decode_armor_payload(&armored));
    assert_eq!(decoded, json);
    let mut payload = decoded.clone();
    let report = verify_payload(&mut payload, &original.integrity);
    assert!(report.is_valid);
}

#[test]
fn test_armor_with_markdown_fences_and_whitespace() {
    let json = sample_json();
    let original = sample_mod(&json);
    let armored = encode_to_armor(&original, &json);
    let wrapped_in_markdown = format!("```text\r\n   {}\r\n   \r\n```", armored);
    let decoded = encoded(decode_armor_payload(&wrapped_in_markdown));
    assert_eq!(decoded, json);
}

#[test]
fn decode_from_armor_rejects_corrupt_plain_json() {
    let json = sample_json();
    let mut m = sample_mod(&json);
    m.integrity.payload_crc32 ^= 1;
    let text = String::from_utf8(json.clone()).unwrap();
    let plain = format!("  {{\"package\": {}}}  ", text);
    match decode_armor_payload(&plain) {
        Ok(ArmorPayload::Json(s)) => assert_eq!(s, plain.trim()),
        _ => panic!("plain JSON is handed over as is"),
    }
    let mut payload = json.clone();
    let report = verify_payload(&mut payload, &m.integrity);
    assert!(!report.is_valid);
    assert!(!report.crc32_verified);
    assert!(report.sha256_verified);
}

#[test]
fn armor_lines_are_at_most_64_characters() {
    let json: Vec<u8> = (0..200u8).collect();
    let m = sample_mod(&json);
    let armored = encode_to_armor(&m, &json);
    let body: Vec<&str> = armored.lines().skip_while(|l| !l.is_empty()).skip(1).collect();
    assert!(body.len() >= 5);
    for l in &body[..body.len() - 1] {
        assert!(l.len() <= 64);
    }
    assert_eq!(*body.last().unwrap(), ARMOR_FOOTER);
    assert_eq!(encoded(decode_armor_payload(&armored)), json);
}

fn profile_message(r: Result<ArmorPayload, SterngateError>) -> String {
    match r {
        Err(SterngateError::ProfileError(m)) => m,
        _ => panic!("expected a profile error"),
    }
}

#[test]
fn armor_errors() {
    assert_eq!(
        profile_message(decode_armor_payload("hello")),
        "Missing '-----BEGIN STERNGATE COMMUNITY MOD-----' header"
    );
    assert_eq!(
        profile_message(decode_armor_payload("-----BEGIN STERNGATE COMMUNITY MOD-----\nabc")),
        "Missing '-----END STERNGATE COMMUNITY MOD-----' footer"
    );
    assert_eq!(
        profile_message(decode_armor_payload(
            "-----END STERNGATE COMMUNITY MOD-----\n-----BEGIN STERNGATE COMMUNITY MOD-----"
        )),
        "Corrupted armor delimiters: footer precedes header"
    );
    assert_eq!(
        profile_message(decode_armor_payload(
            "-----BEGIN STERNGATE COMMUNITY MOD-----\nName: x\n\n-----END STERNGATE COMMUNITY MOD-----"
        )),
        "Empty mod payload inside armor block"
    );
    let bad = profile_message(decode_armor_payload(
        "-----BEGIN STERNGATE COMMUNITY MOD-----\n\nQUJD*\n-----END STERNGATE COMMUNITY MOD-----",
    ));
    assert!(bad.starts_with("Base64 decoding failed for mod payload: "), "{bad}");
}

#[test]
fn armor_footer_inside_header_is_refused_by_the_checked_reader() {
    let text = "-----BEGIN STERNGATE COMMUNITY MOD-----END STERNGATE COMMUNITY MOD-----";
    assert!(try_decode_armor_payload(text).is_none());
}

#[test]
fn damaged_payload_with_one_bad_byte_is_repaired_and_valid() {
    let json = sample_json();
    let m = sample_mod(&json);
    let mut payload = json.clone();
    payload[17] = b'#';
    let report = verify_payload(&mut payload, &m.integrity);
    assert_eq!(payload, json);
    assert!(report.is_valid);
    assert!(report.crc32_verified && report.sha256_verified);
    assert!(matches!(report.fec_status, sterngate::fec::FecStatus::Repaired { corrected_byte_count: 1, .. }));
}
