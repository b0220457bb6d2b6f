use sterngate::command::CommandEnvelope;
use sterngate::dtc::Dtc;
use sterngate::error::SterngateError;
use sterngate::i18n::{
    dtc_database_count, lookup_dtc_description, lookup_routine_name, try_lookup_dtc_description,
    DtcDatabase, DtcRecord, Language,
};

#[test]
fn test_dtc_parsing() {
    let db = DtcDatabase::new();
    let dtc = Dtc::parse_iso15031(0x01, 0x00, 0x28, "EDC16", &db);
    assert_eq!(dtc.code, "P0100");
    assert!(dtc.confirmed);
    assert!(!dtc.pending);
    assert_eq!(
        dtc.description,
        "Mass Air Flow (MAF) Sensor Circuit Malfunction"
    );
}

#[test]
fn test_command_envelope_ttl_expiration() {
    let env = CommandEnvelope::new("EDC16", 0x14, None, vec![]).with_ttl(1000);
    let current_time = env.timestamp_ms + 500;
    assert!(!env.is_expired(current_time));

    let expired_time = env.timestamp_ms + 1500;
    assert!(env.is_expired(expired_time));
}

#[test]
fn test_command_envelope_integrity_validation() {
    let payload = vec![0x12, 0x34, 0x56, 0x78];
    let env = CommandEnvelope::new("EDC16", 0x2E, Some(0x2001), payload.clone());
    assert!(env.validate_integrity().is_ok());

    let mut truncated = env.clone();
    truncated.payload.pop();
    match truncated.validate_integrity() {
        Err(SterngateError::ParameterParseError { name, reason }) => {
            assert_eq!(name, format!("Command_{}", env.command_id));
            assert_eq!(reason, "Payload length mismatch: declared 4 bytes, but received 3 bytes. Packet may have been truncated over network.");
        }
        other => panic!("unexpected {:?}", other),
    }

    let mut corrupted = env.clone();
    corrupted.payload[0] ^= 0xFF;
    match corrupted.validate_integrity() {
        Err(SterngateError::ChecksumMismatch { expected, calculated }) => {
            assert_eq!(expected, format!("0x{:08X}", env.payload_crc32));
            assert_eq!(calculated, format!("0x{:08X}", crc32fast::hash(&corrupted.payload)));
        }
        other => panic!("unexpected {:?}", other),
    }
}

#[test]
fn envelope_new_fields() {
    let env = CommandEnvelope::new("EGS52", 0x22, Some(0xF190), vec![1, 2, 3]);
    assert_eq!(env.target_module, "EGS52");
    assert_eq!(env.payload_len, 3);
    assert_eq!(env.ttl_ms, 10_000);
    assert_eq!(env.payload_crc32, crc32fast::hash(&[1, 2, 3]));
    assert_eq!(env.command_id.len(), 36);
    assert_eq!(env.command_id.as_bytes()[14], b'4');
    let keyed = env.clone().with_idempotency_key("abc");
    assert_eq!(keyed.idempotency_key, "abc");
    assert_eq!(keyed.command_id, env.command_id);
}

#[test]
fn dtc_codes_status_bits_and_localization() {
    let mut db = DtcDatabase::new();
    db.insert(
        "B1000".to_string(),
        DtcRecord { hex: None, en: Some("SAM internal fault".into()), de: None, sv: Some("SAM internt fel".into()) },
    );
    assert_eq!(dtc_database_count(&db), 1);
    let d = Dtc::parse_iso15031_localized(0x90, 0x00, 0x84, "SAM", Language::De, &db);
    assert_eq!(d.code, "B1000");
    assert!(d.warning_lamp_requested);
    assert!(d.pending);
    assert!(!d.confirmed);
    assert_eq!(d.raw_bytes, [0x90, 0x00, 0x00]);
    assert_eq!(d.description, "SAM internal fault");
    let mut d2 = d.clone();
    d2.localize(Language::Sv, &db);
    assert_eq!(d2.description, "SAM internt fel");
    let u = Dtc::parse_iso15031(0xC1, 0x2A, 0, "ECU", &db);
    assert_eq!(u.code, "U012A");
    assert_eq!(u.description, "Manufacturer or Standard DTC U012A");
}

#[test]
fn dtc_lookup_alias_and_fallbacks() {
    let mut db = DtcDatabase::new();
    db.insert("P1644".to_string(), DtcRecord { hex: None, en: None, de: Some("Leerlauf".into()), sv: None });
    assert_eq!(lookup_dtc_description(" p164456 ", Language::En, &db), "Leerlauf");
    assert_eq!(lookup_dtc_description("P0300", Language::Sv, &db), "Slumpmässiga/flera cylinderfeltändningar upptäckta");
    assert_eq!(lookup_dtc_description("U0100", Language::En, &db), "Manufacturer or Standard DTC U0100");
    assert_eq!(lookup_dtc_description("X9", Language::De, &db), "Hersteller- oder Standard-Fehlercode X9");
    assert_eq!(try_lookup_dtc_description("P0ÄÄÄ", Language::En, &db), None);
    db.insert("P1644".to_string(), DtcRecord { hex: None, en: Some("Idle".into()), de: None, sv: None });
    assert_eq!(dtc_database_count(&db), 1);
    assert_eq!(lookup_dtc_description("P1644", Language::En, &db), "Idle");
}

#[test]
fn languages_and_routines() {
    assert_eq!(Language::De.code(), "de");
    assert_eq!(Language::Sv.display_name(), "Svenska");
    assert_eq!(Language::from_name("  German "), Language::De);
    assert_eq!(Language::from_name("SV-SE"), Language::Sv);
    assert_eq!(Language::from_name("fr"), Language::En);
    assert_eq!(lookup_routine_name(0x0202, Language::En), "Trigger DPF Service Regeneration");
    assert_eq!(lookup_routine_name(0xFF00, Language::De), "Flash-Speicher Löschroutine");
    assert_eq!(lookup_routine_name(0x1234, Language::Sv), "Diagnostisk rutinstyrning");
}

#[test]
fn checked_localization_and_language_parsing() {
    let mut db = DtcDatabase::new();
    db.insert(
        "B1000".to_string(),
        DtcRecord { hex: None, en: Some("SAM internal fault".into()), de: Some("SAM interner Fehler".into()), sv: None },
    );
    let mut d = Dtc::parse_iso15031(0x90, 0x00, 0x28, "SAM", &db);
    assert_eq!(d.description, "SAM internal fault");
    assert!(d.try_localize(Language::De, &db));
    assert_eq!(d.description, "SAM interner Fehler");
    assert_eq!(" de-AT ".parse::<Language>().unwrap(), Language::De);
    assert_eq!("Svenska".parse::<Language>().unwrap(), Language::Sv);
    assert_eq!("klingon".parse::<Language>().unwrap(), Language::En);
}

fn schema_param(id: &str, module: &str, did: &str, length: usize) -> sterngate::profile::ParameterLayout {
    sterngate::profile::ParameterLayout {
        id: id.into(),
        name: format!("{id} name"),
        module: module.into(),
        did: did.into(),
        byte_offset: 0,
        length,
    }
}

#[test]
fn profile_schema_checks_module_and_length() {
    let params = vec![
        schema_param("vin", "EZS", "0xF190", 17),
        schema_param("trans_temp", "EGS52", "0x2001", 2),
    ];
    // no DID, or a DID the profile does not know: accepted
    assert!(CommandEnvelope::new("EGS52", 0x14, None, vec![]).validate_profile_schema(&params).is_ok());
    assert!(CommandEnvelope::new("EGS52", 0x2E, Some(0x3000), vec![1]).validate_profile_schema(&params).is_ok());
    // right module, right length
    assert!(CommandEnvelope::new("EGS52", 0x2E, Some(0x2001), vec![1, 2]).validate_profile_schema(&params).is_ok());
    // DIDs are matched without regard to case ("0xF190" against "0xf190" is the same)
    match CommandEnvelope::new("EGS52", 0x2E, Some(0xF190), vec![0; 17]).validate_profile_schema(&params) {
        Err(SterngateError::ProfileError(m)) => {
            assert_eq!(m, "DID 0xF190 belongs to module 'EZS', not 'EGS52'")
        }
        other => panic!("unexpected {:?}", other),
    }
    match CommandEnvelope::new("EGS52", 0x2E, Some(0x2001), vec![1, 2, 3]).validate_profile_schema(&params) {
        Err(SterngateError::ParameterParseError { name, reason }) => {
            assert_eq!(name, "trans_temp name");
            assert_eq!(
                reason,
                "DID 0x2001 expects exactly 2 bytes according to profile, but payload contains 3 bytes."
            );
        }
        other => panic!("unexpected {:?}", other),
    }
}

#[test]
fn find_parameter_by_id_or_did_ignoring_case() {
    let params = vec![
        schema_param("vin", "EZS", "0xF190", 17),
        schema_param("trans_temp", "EGS52", "0x2001", 2),
    ];
    assert_eq!(sterngate::profile::find_parameter(&params, "TRANS_TEMP"), Some(1));
    assert_eq!(sterngate::profile::find_parameter(&params, "0xf190"), Some(0));
    assert_eq!(sterngate::profile::find_parameter(&params, "0x2002"), None);
}
