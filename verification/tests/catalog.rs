use sterngate::catalog::{CatalogMetadata, EcuCatalog, EcuCatalogEntry, EcuVersionInfo};

fn meta() -> CatalogMetadata {
    CatalogMetadata {
        title: Some("Test".into()),
        version: None,
        description: None,
        total_ecus: 3,
        total_cbf_files: 5,
        unique_ecus: 3,
        redundant_file_copies: 2,
    }
}

fn entry(name: &str, chassis: &[&str], all: &[&str]) -> EcuCatalogEntry {
    EcuCatalogEntry {
        ecu_name: name.into(),
        protocol: "UDS".into(),
        tx_id: Some("0x7E0".into()),
        rx_id: Some("0x7E8".into()),
        func_id: None,
        dtc_count: 12,
        chassis: chassis.iter().map(|s| s.to_string()).collect(),
        canonical_version: EcuVersionInfo::default(),
        all_chassis_supported: all.iter().map(|s| s.to_string()).collect(),
        total_copies_in_cbf: 0,
        distinct_versions_count: 0,
    }
}

fn catalog() -> EcuCatalog {
    EcuCatalog::from_entries(
        meta(),
        vec![
            ("SAM_F".into(), entry("SAM_F", &["W211"], &[])),
            ("EDC16".into(), entry("EDC16", &["W211", "W219"], &["W211", "W219", "W164"])),
            ("ME97".into(), entry("ME97", &[], &["W221"])),
            ("EDC16C31".into(), entry("EDC16C31", &["W204"], &[])),
            ("EDC16".into(), entry("EDC16", &["W211", "W219"], &["W211", "W219", "W164"])),
        ],
    )
}

#[test]
fn catalog_keeps_names_sorted_and_unique() {
    let c = catalog();
    let names: Vec<&str> = c.ecus.iter().map(|(k, _)| k.as_str()).collect();
    assert_eq!(names, vec!["EDC16", "EDC16C31", "ME97", "SAM_F"]);
    assert_eq!(c.stats().total_cbf_files, 5);
}

#[test]
fn catalog_get_ecu_is_case_insensitive() {
    let c = catalog();
    assert_eq!(c.get_ecu("edc16").unwrap().ecu_name, "EDC16");
    assert_eq!(c.get_ecu("Me97").unwrap().dtc_count, 12);
    assert!(c.get_ecu("KI").is_none());
}

#[test]
fn catalog_search_orders_exact_then_prefix_then_name() {
    let c = catalog();
    let r = c.search(" edc16 ", 0);
    let names: Vec<&str> = r.iter().map(|x| x.ecu_name.as_str()).collect();
    assert_eq!(names, vec!["EDC16", "EDC16C31"]);
    let r = c.search("16", 0);
    let names: Vec<&str> = r.iter().map(|x| x.ecu_name.as_str()).collect();
    assert_eq!(names, vec!["EDC16", "EDC16C31"]);
    let all = c.search("", 0);
    assert_eq!(all.len(), 4);
    assert_eq!(c.search("", 2).len(), 2);
}

#[test]
fn catalog_search_matches_supported_chassis() {
    let c = catalog();
    let r = c.search("w164", 10);
    assert_eq!(r.len(), 1);
    assert_eq!(r[0].ecu_name, "EDC16");
    assert_eq!(r[0].all_chassis_supported, vec!["W211", "W219", "W164"]);
    let r = c.search("w221", 10);
    assert_eq!(r.len(), 1);
    assert_eq!(r[0].ecu_name, "ME97");
}

#[test]
fn catalog_harmonize_fills_missing_fields() {
    let mut c = catalog();
    c.harmonize();
    let me97 = c.get_ecu("ME97").unwrap();
    assert_eq!(me97.chassis, vec!["W221"]);
    assert_eq!(me97.total_copies_in_cbf, 1);
    assert_eq!(me97.distinct_versions_count, 1);
    assert_eq!(me97.canonical_version.protocol, "UDS");
    assert_eq!(me97.canonical_version.dtc_count, 12);
    let sam = c.get_ecu("SAM_F").unwrap();
    assert_eq!(sam.all_chassis_supported, vec!["W211"]);
}
