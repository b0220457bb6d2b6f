use sterngate::garage::DecodedVin;

#[test]
fn decodes_w211_estate_vin() {
    let v = DecodedVin::decode(" wdb2112261a123456 ");
    assert_eq!(v.raw_vin, "WDB2112261A123456");
    assert_eq!(v.manufacturer, "Mercedes-Benz");
    assert_eq!(v.model_series, "S211 / W211 (E-Class)");
    assert_eq!(v.body_style, "Estate / T-Modell (S211)");
    assert_eq!(v.model_name, "E 320 T CDI");
    assert_eq!(v.engine, "OM648 3.2L I6 CDI (204 hp)");
    assert_eq!(v.plant_code, Some('A'));
    assert_eq!(v.serial_number, "123456");
}

#[test]
fn decodes_other_makes_and_short_vins() {
    let bmw = DecodedVin::decode("WBA12345678901234");
    assert_eq!(bmw.manufacturer, "BMW AG");
    let mb = DecodedVin::decode("WDD9990001X000001");
    assert_eq!(mb.model_series, "Chassis 999");
    let short = DecodedVin::decode("abc");
    assert_eq!(short.manufacturer, "Unknown / Non-standard");
    assert_eq!(short.serial_number, "ABC");
    assert_eq!(short.plant_code, None);
    assert!(DecodedVin::try_decode("WDé111111111111111").is_none());
}

#[test]
fn decoding_a_decoded_vin_gives_the_same_record() {
    for raw in [" wdb2112261a123456 ", "wba12345678901234", "  short  ", "WDD9990001X000001"] {
        let first = DecodedVin::decode(raw);
        let second = DecodedVin::decode(&first.raw_vin);
        assert_eq!(first, second);
    }
}
