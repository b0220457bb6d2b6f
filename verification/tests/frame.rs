use sterngate::frame::CanFrame;

#[test]
fn test_can_frame_creation() {
    let frame = CanFrame::new_standard(0x7E0, &[0x02, 0x10, 0x01]);
    assert_eq!(frame.id, 0x7E0);
    assert!(!frame.is_extended);
    assert_eq!(frame.dlc, 3);
    assert_eq!(frame.data, vec![0x02, 0x10, 0x01]);
}

#[test]
fn long_payload_is_cut_to_eight_bytes() {
    let frame = CanFrame::new_extended(0x1FFF_FFFF, &[9; 12]).with_timestamp(77);
    assert!(frame.is_extended);
    assert!(!frame.is_remote);
    assert_eq!(frame.dlc, 8);
    assert_eq!(frame.data, vec![9; 8]);
    assert_eq!(frame.timestamp_us, 77);
}
