use sterngate::service::{ImaClassification, SuspensionCorner};

#[test]
fn ima_codes_are_classified() {
    let a = ImaClassification::new(1, " 7b8hna ");
    assert_eq!(a.code, "7B8HNA");
    assert!(a.is_valid);
    assert_eq!(a.format, "Bosch IMA (6-character)");
    let b = ImaClassification::new(2, "A8B12F7");
    assert!(b.is_valid);
    assert_eq!(b.format, "Bosch/Delphi EMA (7-character)");
    let c = ImaClassification::new(3, "A8-12F");
    assert!(!c.is_valid);
    assert_eq!(c.format, "Invalid Format (must be 6 or 7 alphanumeric characters)");
}

#[test]
fn suspension_corners_parse() {
    assert_eq!(SuspensionCorner::parse_str("FRONT_LEFT"), Some(SuspensionCorner::FrontLeft));
    assert_eq!(SuspensionCorner::parse_str("rr"), Some(SuspensionCorner::RearRight));
    assert_eq!(SuspensionCorner::parse_str("rear_axle"), Some(SuspensionCorner::BothRear));
    assert_eq!(SuspensionCorner::parse_str("middle"), None);
    assert_eq!(SuspensionCorner::AllCorners.as_str(), "All 4 Corners");
}
