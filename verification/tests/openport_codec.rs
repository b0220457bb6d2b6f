use sterngate::frame::CanFrame;
use sterngate::openport_codec::{
    OpenPortCommand, OpenPortDecoder, OpenPortResponse, PacketType, CHANNEL_CAN,
};

#[test]
fn test_encode_identify() {
    let cmd = OpenPortCommand::Identify;
    assert_eq!(cmd.encode(), b"\r\n\r\nati\r\n");
}

#[test]
fn test_encode_activate_and_reset() {
    assert_eq!(OpenPortCommand::Activate.encode(), b"ata\r\n");
    assert_eq!(OpenPortCommand::Reset.encode(), b"atz\r\n");
}

#[test]
fn test_encode_open_channel_can_500k() {
    let cmd = OpenPortCommand::OpenChannel {
        channel: CHANNEL_CAN,
        flags: 0,
        baud: 500000,
    };
    assert_eq!(cmd.encode(), b"ato5 0 500000 0\r\n");
}

#[test]
fn test_encode_transmit_can_standard_frame() {
    let frame = CanFrame::new_standard(0x7E0, &[0x02, 0x10, 0x03]);
    let cmd = OpenPortCommand::TransmitCan {
        channel: CHANNEL_CAN,
        frame,
    };
    let encoded = cmd.encode();

    let header = b"att5 7 0\r\n";
    assert_eq!(&encoded[..header.len()], header);
    assert_eq!(
        &encoded[header.len()..header.len() + 4],
        &[0, 0, 0x07, 0xE0]
    );
    assert_eq!(&encoded[header.len() + 4..], &[0x02, 0x10, 0x03]);
}

#[test]
fn test_encode_read_battery_voltage_pin16() {
    let cmd = OpenPortCommand::ReadPinVoltage { pin: 16 };
    assert_eq!(cmd.encode(), b"atr 16\r\n");
}

#[test]
fn test_decode_ascii_responses() {
    let mut decoder = OpenPortDecoder::new();

    decoder.feed(b"ari OpenPort 2.0 1.15.4123\r\n");
    let resp = decoder.next_response().expect("Expected response");
    assert_eq!(
        resp,
        OpenPortResponse::DeviceInfo("OpenPort 2.0 1.15.4123".to_string())
    );

    decoder.feed(b"aro\r\n");
    let resp = decoder.next_response().expect("Expected response");
    assert_eq!(resp, OpenPortResponse::AckOk);

    decoder.feed(b"arf 42\r\n");
    let resp = decoder.next_response().expect("Expected response");
    assert_eq!(resp, OpenPortResponse::FilterAssigned(42));

    decoder.feed(b"arr 16 12640\r\n");
    let resp = decoder.next_response().expect("Expected response");
    assert_eq!(
        resp,
        OpenPortResponse::PinVoltage {
            pin: 16,
            millivolts: 12640
        }
    );
}

#[test]
fn test_decode_binary_can_frame() {
    let mut decoder = OpenPortDecoder::new();

    let mut raw = vec![b'a', b'r', b'5', 13];
    raw.push(PacketType::NormMsg as u8);
    raw.extend_from_slice(&1_250_000u32.to_be_bytes());
    raw.extend_from_slice(&0x7E8u32.to_be_bytes());
    raw.extend_from_slice(&[0x03, 0x7F, 0x22, 0x11]);

    decoder.feed(&raw);
    let resp = decoder.next_response().expect("Expected response");

    match resp {
        OpenPortResponse::ReceivedCan {
            channel,
            frame,
            timestamp_us,
        } => {
            assert_eq!(channel, b'5');
            assert_eq!(frame.id, 0x7E8);
            assert!(!frame.is_extended);
            assert_eq!(frame.data, vec![0x03, 0x7F, 0x22, 0x11]);
            assert_eq!(timestamp_us, 1_250_000);
        }
        other => panic!("Unexpected response: {:?}", other),
    }
}

#[test]
fn test_decoder_fragmented_stream() {
    let mut decoder = OpenPortDecoder::new();

    decoder.feed(b"arr 16 ");
    assert_eq!(decoder.next_response(), None);

    decoder.feed(b"12480\r\n");
    let resp = decoder.next_response().expect("Expected response");
    assert_eq!(
        resp,
        OpenPortResponse::PinVoltage {
            pin: 16,
            millivolts: 12480
        }
    );
}

#[test]
fn packet_type_codes_roundtrip() {
    for t in [
        PacketType::NormMsg,
        PacketType::TxDone,
        PacketType::TxLoopback,
        PacketType::MsgEnd,
        PacketType::ExtAddrMsgEnd,
        PacketType::LoopbackMsgEnd,
        PacketType::NormMsgStart,
        PacketType::TxLoopbackStart,
    ] {
        assert_eq!(PacketType::from_u8(t.code()), Some(t));
    }
    assert_eq!(PacketType::TxDone.code(), 0x10);
    assert_eq!(PacketType::from_u8(0x11), None);
}

#[test]
fn encode_other_commands() {
    assert_eq!(OpenPortCommand::CloseChannel { channel: 6 }.encode(), b"atc6\r\n");
    assert_eq!(
        OpenPortCommand::DeleteFilter { channel: 5, filter_id: 3 }.encode(),
        b"atk5 3\r\n"
    );
    let f = OpenPortCommand::SetFilter {
        channel: 6,
        filter_type: 3,
        flags: 0,
        mask: vec![0xFF, 0xFF],
        pattern: vec![0x07, 0xE8],
        flow_control: Some(vec![0x07, 0xE0]),
    };
    assert_eq!(f.encode(), b"atf6 3 0 2\r\n\xFF\xFF\x07\xE8\x07\xE0".to_vec());
    let ext = CanFrame::new_extended(0x18DA10F1, &[1, 2]);
    let enc = OpenPortCommand::TransmitCan { channel: 5, frame: ext }.encode();
    assert_eq!(enc, b"att5 6 256\r\n\x18\xDA\x10\xF1\x01\x02".to_vec());
}

#[test]
fn decode_garbage_errors_and_tx_done() {
    let mut decoder = OpenPortDecoder::new();
    decoder.feed(b"xxare 7 bus off\r\n");
    assert_eq!(
        decoder.next_response(),
        Some(OpenPortResponse::DeviceError { code: 7, message: "bus off".to_string() })
    );
    assert_eq!(decoder.buffered_len(), 0);

    decoder.feed(b"are\r\n");
    assert_eq!(
        decoder.next_response(),
        Some(OpenPortResponse::DeviceError { code: 1, message: String::new() })
    );

    decoder.feed(&[b'a', b'r', 5, 5, 0x10, 0, 0, 1, 0]);
    assert_eq!(
        decoder.next_response(),
        Some(OpenPortResponse::TxDone { channel: 5, timestamp_us: 256 })
    );

    decoder.feed(b"zzza");
    assert_eq!(decoder.next_response(), None);
    assert_eq!(decoder.buffered_len(), 1);
    decoder.clear();
    assert_eq!(decoder.buffered_len(), 0);
}

#[test]
fn decode_extended_frame_keeps_eight_bytes() {
    let mut decoder = OpenPortDecoder::new();
    let mut raw = vec![b'a', b'r', 6, 19, 0x20];
    raw.extend_from_slice(&[0, 0, 0, 9]);
    raw.extend_from_slice(&0x18DAF110u32.to_be_bytes());
    raw.extend_from_slice(&[1, 2, 3, 4, 5, 6, 7, 8, 9, 10]);
    decoder.feed(&raw);
    match decoder.next_response() {
        Some(OpenPortResponse::ReceivedCan { channel, frame, timestamp_us }) => {
            assert_eq!(channel, 6);
            assert!(frame.is_extended);
            assert_eq!(frame.dlc, 8);
            assert_eq!(frame.data, vec![1, 2, 3, 4, 5, 6, 7, 8]);
            assert_eq!(frame.timestamp_us, 9);
            assert_eq!(timestamp_us, 9);
        }
        other => panic!("Unexpected: {:?}", other),
    }
}

#[test]
fn malformed_voltage_reply_is_dropped_alone() {
    let mut decoder = OpenPortDecoder::new();
    decoder.feed(b"arr x\r\n");
    assert_eq!(decoder.next_response(), None);
    assert_eq!(decoder.buffered_len(), 0);
    let mut decoder = OpenPortDecoder::new();
    decoder.feed(b"arr x\r\naro\r\n");
    assert_eq!(decoder.next_response(), Some(OpenPortResponse::AckOk));
    assert_eq!(decoder.buffered_len(), 0);
}

#[test]
fn short_frame_packet_is_dropped_alone() {
    let mut decoder = OpenPortDecoder::new();
    // a NormMsg packet too short for a CAN ID, then an acknowledgement
    decoder.feed(&[b'a', b'r', b'6', 5, 0x20, 0, 0, 0, 1]);
    decoder.feed(b"aro\r\n");
    assert_eq!(decoder.next_response(), Some(OpenPortResponse::AckOk));
    assert_eq!(decoder.buffered_len(), 0);
}

#[test]
fn replies_do_not_depend_on_transfer_boundaries() {
    let mut stream: Vec<u8> = b"aro\r\nari 1.17.4877\r\narf 3\r\narr 16 12500\r\n".to_vec();
    stream.extend_from_slice(&[b'a', b'r', 5, 5, 0x10, 0, 0, 1, 0]);
    stream.extend_from_slice(b"are 5 bad channel\r\n");
    let mut at_once = OpenPortDecoder::new();
    at_once.feed(&stream);
    let mut expected = Vec::new();
    while let Some(r) = at_once.next_response() {
        expected.push(r);
    }
    assert_eq!(expected.len(), 6);
    assert_eq!(at_once.buffered_len(), 0);
    for cut in 1..7usize {
        let mut d = OpenPortDecoder::new();
        let mut got = Vec::new();
        for chunk in stream.chunks(cut) {
            d.feed(chunk);
            while let Some(r) = d.next_response() {
                got.push(r);
            }
        }
        assert_eq!(got, expected);
        assert_eq!(d.buffered_len(), 0);
    }
}
