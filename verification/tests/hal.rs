use sterngate::error::SterngateError;
use sterngate::frame::CanFrame;
use sterngate::hal::{DoIpInterface, J2534Interface, SocketCanInterface};

#[test]
fn doip_lifecycle_and_errors() {
    let mut d = DoIpInterface::new("192.168.0.10");
    assert_eq!(d.address(), "192.168.0.10");
    assert!(!d.is_connected());
    let f = CanFrame::new_standard(0x7E0, &[0x02, 0x10, 0x03]);
    assert!(d.send(&f).is_err());
    assert!(d.recv().is_err());
    assert_eq!(d.name(), "DoIP (ISO 13400)");
    d.open().unwrap();
    assert!(d.is_connected());
    assert!(d.send(&f).is_ok());
    let r = d.recv().unwrap();
    assert_eq!(r.id, 0x7E8);
    assert_eq!(r.data, vec![0x02, 0x50, 0x01]);
    d.close().unwrap();
    assert!(!d.is_connected());
}

#[test]
fn j2534_lifecycle() {
    let mut j = J2534Interface::new("op20pt32");
    assert!(!j.is_connected());
    j.open().unwrap();
    assert!(j.is_connected());
    j.close().unwrap();
    assert!(!j.is_connected());
}

#[test]
fn socketcan_refuses_when_closed() {
    let mut s = SocketCanInterface::new("can0");
    assert_eq!(s.name(), "can0");
    assert!(!s.is_connected());
    let f = CanFrame::new_standard(0x7E0, &[0x01]);
    match s.check_outgoing(&f) {
        Err(SterngateError::DeviceNotFound(_)) | Err(SterngateError::HalError(_)) => {}
        other => panic!("unexpected {:?}", other),
    }
    s.set_open(true);
    assert!(s.is_connected());
    assert!(s.check_outgoing(&f).is_ok());
}
