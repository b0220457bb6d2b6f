use sterngate::simulator::EcuSimulator;

#[test]
fn simulator_session_control_reply() {
    let mut sim = EcuSimulator::new();
    let resp = sim.generate_telemetry_frame(0x7E0, &[0x02, 0x10, 0x03], 800).unwrap();
    assert_eq!(resp.id, 0x7E8);
    assert_eq!(resp.data[1], 0x50);
    assert_eq!(resp.data[2], 0x03);
}

#[test]
fn simulator_reads_egs_fluid_temperature() {
    let mut sim = EcuSimulator::new();
    let resp = sim.generate_telemetry_frame(0x7E1, &[0x03, 0x22, 0x20, 0x01], 800).unwrap();
    assert_eq!(resp.id, 0x7E9);
    assert_eq!(resp.data[1], 0x62);
    assert_eq!(resp.data[2], 0x20);
    assert_eq!(resp.data[3], 0x01);
    assert_eq!(resp.data[4], 120);
}

#[test]
fn simulator_routine_control_reply() {
    let mut sim = EcuSimulator::new();
    let resp = sim.generate_telemetry_frame(0x7E0, &[0x04, 0x31, 0x01, 0xFF, 0x01], 800).unwrap();
    assert_eq!(resp.id, 0x7E8);
    assert_eq!(&resp.data[1..6], &[0x71, 0x01, 0xFF, 0x01, 0x00]);
}

#[test]
fn simulator_read_memory_returns_requested_length() {
    let mut sim = EcuSimulator::new();
    let fc = sim
        .generate_telemetry_frame(0x7E0, &[0x10, 0x08, 0x23, 0x24, 0x00, 0x1C, 0x10, 0x00], 800)
        .unwrap();
    assert_eq!(fc.data[0], 0x30);
    let resp = sim.generate_telemetry_frame(0x7E0, &[0x21, 0x00, 0x03], 800).unwrap();
    assert_eq!(&resp.data[..5], &[0x04, 0x63, 0x00, 0x00, 0x00]);
}

#[test]
fn simulator_read_memory_refuses_more_than_six_bytes() {
    let mut sim = EcuSimulator::new();
    let _fc = sim
        .generate_telemetry_frame(0x7E0, &[0x10, 0x08, 0x23, 0x24, 0x00, 0x1C, 0x10, 0x00], 800)
        .unwrap();
    let resp = sim.generate_telemetry_frame(0x7E0, &[0x21, 0x00, 0x07], 800).unwrap();
    assert_eq!(&resp.data[..4], &[0x03, 0x7F, 0x23, 0x31]);
}

#[test]
fn simulator_failing_services_answer_nrc() {
    let mut sim = EcuSimulator::with_failing_services(&[0x22]);
    let resp = sim.generate_telemetry_frame(0x7E0, &[0x03, 0x22, 0xF1, 0x91], 800).unwrap();
    assert_eq!(&resp.data[..4], &[0x03, 0x7F, 0x22, 0x31]);

    let mut sim = EcuSimulator::with_failing_services(&[0x23]);
    let _fc = sim
        .generate_telemetry_frame(0x7E0, &[0x10, 0x08, 0x23, 0x24, 0x00, 0x1C, 0x10, 0x00], 800)
        .unwrap();
    let resp = sim.generate_telemetry_frame(0x7E0, &[0x21, 0x00, 0x03], 800).unwrap();
    assert_eq!(&resp.data[..4], &[0x03, 0x7F, 0x23, 0x31]);
}

#[test]
fn simulator_functional_address_answers_from_engine() {
    let mut sim = EcuSimulator::new();
    let resp = sim.generate_telemetry_frame(0x7DF, &[0x02, 0x10, 0x01], 800).unwrap();
    assert_eq!(resp.id, 0x7E8);
}

#[test]
fn simulator_ignores_empty_payload_and_detects_flow_control() {
    let mut sim = EcuSimulator::new();
    assert!(sim.generate_telemetry_frame(0x7E0, &[], 800).is_none());
    assert!(EcuSimulator::is_flow_control(&[0x30, 0x00, 0x00]));
    assert!(!EcuSimulator::is_flow_control(&[0x02, 0x10, 0x03]));
    assert!(!EcuSimulator::is_flow_control(&[]));
    assert!(sim.take_pending().is_empty());
}

#[test]
fn simulator_multi_frame_identification_reassembles() {
    let mut sim = EcuSimulator::new();
    let ff = sim.generate_telemetry_frame(0x7E0, &[0x03, 0x22, 0xF1, 0x92], 800).unwrap();
    assert_eq!(ff.data[0] >> 4, 1);
    let len = (((ff.data[0] & 0x0F) as usize) << 8) | ff.data[1] as usize;
    assert_eq!(len, 13);
    let cfs = sim.take_pending();
    assert_eq!(cfs.len(), 1);
    assert_eq!(cfs[0].data.len(), 8);
    assert_eq!(cfs[0].data[0], 0x21);
    let mut bytes: Vec<u8> = ff.data[2..].to_vec();
    for cf in &cfs {
        bytes.extend_from_slice(&cf.data[1..]);
    }
    bytes.truncate(len);
    assert_eq!(bytes, vec![0x62, 0xF1, 0x92, b'0', b'2', b'8', b'1', b'0', b'1', b'2', b'2', b'2', b'4']);
    assert!(sim.take_pending().is_empty());
}
