//! Wire protocol of the Tactrix OpenPort 2.0 adapter: the ASCII `at*` command layer
//! sent to the device, and the stream decoder for its `ar*` replies and binary CAN
//! packets, with microsecond timestamps.

use crate::bytes::{be_bytes, be_read, be_value, push_be32};
use crate::frame::{data_frame, CanFrame, CanFrameView};
use crate::text::{
    join_spaced, join_tokens_from, parse_bounded, parse_unsigned, push_char, seqs_of,
    split_whitespace, ws_tokens,
};
use vstd::prelude::*;

verus! {

/// USB vendor ID of the OpenPort (the FTDI ID, reused by Tactrix).
pub const TACTRIX_VENDOR_ID: u16 = 0x0403;

/// USB product ID of the standard OpenPort 2.0 J2534 interface.
pub const TACTRIX_PRODUCT_ID_OP20: u16 = 0xCC4D;

/// USB product ID of the composite OpenPort 2.0 interface.
pub const TACTRIX_PRODUCT_ID_COMPOSITE: u16 = 0xCC4C;

/// USB product ID of the OpenPort 2.0 in bootloader mode.
pub const TACTRIX_PRODUCT_ID_BOOTLOADER: u16 = 0xCC4B;

/// Channel ID for ISO 9141 (K-Line).
pub const CHANNEL_ISO9141: u8 = 3;

/// Channel ID for ISO 14230 (KWP2000).
pub const CHANNEL_ISO14230: u8 = 4;

/// Channel ID for raw CAN (11-bit and 29-bit).
pub const CHANNEL_CAN: u8 = 5;

/// Channel ID for ISO 15765-2 over CAN.
pub const CHANNEL_ISO15765: u8 = 6;

/// PassThru flag for a 29-bit extended CAN identifier.
pub const CAN_29BIT_ID_FLAG: u32 = 0x0000_0100;

/// Filter type: pass filter.
pub const FILTER_TYPE_PASS: u32 = 1;

/// Filter type: block filter.
pub const FILTER_TYPE_BLOCK: u32 = 2;

/// Filter type: flow-control filter (ISO 15765).
pub const FILTER_TYPE_FLOW_CONTROL: u32 = 3;

/// Largest standard (11-bit) CAN identifier.
pub const MAX_STANDARD_CAN_ID: u32 = 0x7FF;

/// Packet type tags in OpenPort bulk IN packets.
#[derive(Debug, Clone, Copy, PartialEq, Eq)]
pub enum PacketType {
    /// Normal received CAN frame.
    NormMsg,
    /// Transmission completed.
    TxDone,
    /// Loopback of a transmitted frame.
    TxLoopback,
    /// End of a message.
    MsgEnd,
    /// End of an extended-address message.
    ExtAddrMsgEnd,
    /// End of a loopback message.
    LoopbackMsgEnd,
    /// Start of a normal message.
    NormMsgStart,
    /// Start of a loopback message.
    TxLoopbackStart,
}

/// The tag byte of each packet type.
pub open spec fn packet_code(t: PacketType) -> u8 {
    match t {
        PacketType::NormMsg => 0x00,
        PacketType::TxDone => 0x10,
        PacketType::TxLoopback => 0x20,
        PacketType::MsgEnd => 0x40,
        PacketType::ExtAddrMsgEnd => 0x44,
        PacketType::LoopbackMsgEnd => 0x60,
        PacketType::NormMsgStart => 0x80,
        PacketType::TxLoopbackStart => 0xA0,
    }
}

/// The packet type with tag byte `v`, if any.
pub open spec fn packet_type_of(v: u8) -> Option<PacketType> {
    if v == 0x00 {
        Some(PacketType::NormMsg)
    } else if v == 0x10 {
        Some(PacketType::TxDone)
    } else if v == 0x20 {
        Some(PacketType::TxLoopback)
    } else if v == 0x40 {
        Some(PacketType::MsgEnd)
    } else if v == 0x44 {
        Some(PacketType::ExtAddrMsgEnd)
    } else if v == 0x60 {
        Some(PacketType::LoopbackMsgEnd)
    } else if v == 0x80 {
        Some(PacketType::NormMsgStart)
    } else if v == 0xA0 {
        Some(PacketType::TxLoopbackStart)
    } else {
        None
    }
}

impl PacketType {
    /// The tag byte of this packet type.
    pub fn code(self) -> (r: u8)
        ensures
            r == packet_code(self),
    {
        match self {
            PacketType::NormMsg => 0x00,
            PacketType::TxDone => 0x10,
            PacketType::TxLoopback => 0x20,
            PacketType::MsgEnd => 0x40,
            PacketType::ExtAddrMsgEnd => 0x44,
            PacketType::LoopbackMsgEnd => 0x60,
            PacketType::NormMsgStart => 0x80,
            PacketType::TxLoopbackStart => 0xA0,
        }
    }

    /// The packet type tagged `val`, or `None` for an unknown tag.
    pub fn from_u8(val: u8) -> (r: Option<Self>)
        ensures
            r == packet_type_of(val),
    {
        match val {
            0x00 => Some(PacketType::NormMsg),
            0x10 => Some(PacketType::TxDone),
            0x20 => Some(PacketType::TxLoopback),
            0x40 => Some(PacketType::MsgEnd),
            0x44 => Some(PacketType::ExtAddrMsgEnd),
            0x60 => Some(PacketType::LoopbackMsgEnd),
            0x80 => Some(PacketType::NormMsgStart),
            0xA0 => Some(PacketType::TxLoopbackStart),
            _ => None,
        }
    }
}

/// Every packet type is recovered from its tag byte, and distinct types have distinct tags.
pub proof fn lemma_packet_code_roundtrip(t: PacketType, u: PacketType)
    ensures
        packet_type_of(packet_code(t)) == Some(t),
        packet_code(t) == packet_code(u) ==> t == u,
{
}

/// Commands from the host to the adapter (bulk OUT endpoint).
#[derive(Debug, Clone, PartialEq, Eq)]
pub enum OpenPortCommand {
    /// Query device identification and firmware version (`ati`).
    Identify,
    /// Activate the transceiver (`ata`).
    Activate,
    /// Reset channels to idle (`atz`).
    Reset,
    /// Open a protocol channel (`ato`).
    OpenChannel { channel: u8, flags: u32, baud: u32 },
    /// Close a protocol channel (`atc`).
    CloseChannel { channel: u8 },
    /// Transmit a raw CAN frame on a channel (`att`).
    TransmitCan { channel: u8, frame: CanFrame },
    /// Set a hardware message filter (`atf`).
    SetFilter {
        channel: u8,
        filter_type: u32,
        flags: u32,
        mask: Vec<u8>,
        pattern: Vec<u8>,
        flow_control: Option<Vec<u8>>,
    },
    /// Delete a message filter (`atk`).
    DeleteFilter { channel: u8, filter_id: u32 },
    /// Read the ADC voltage on a pin (`atr`); pin 16 is the OBD-II battery line.
    ReadPinVoltage { pin: u8 },
}

/// ASCII decimal digits of `n`.
pub open spec fn decimal_bytes(n: nat) -> Seq<u8>
    decreases n,
{
    if n < 10 {
        seq![(n + 48) as u8]
    } else {
        decimal_bytes(n / 10).push((n % 10 + 48) as u8)
    }
}

/// Carriage return and line feed.
pub open spec fn crlf() -> Seq<u8> {
    seq![13u8, 10u8]
}

/// The three-letter command word `a t c`.
pub open spec fn at_word(c: u8) -> Seq<u8> {
    seq![97u8, 116u8, c]
}

/// A single ASCII space.
pub open spec fn space() -> Seq<u8> {
    seq![32u8]
}

/// The bytes of each command on the wire.
pub open spec fn command_bytes(cmd: OpenPortCommand) -> Seq<u8> {
    match cmd {
        OpenPortCommand::Identify => crlf() + crlf() + at_word(105u8) + crlf(),
        OpenPortCommand::Activate => at_word(97u8) + crlf(),
        OpenPortCommand::Reset => at_word(122u8) + crlf(),
        OpenPortCommand::OpenChannel { channel, flags, baud } => at_word(111u8) + decimal_bytes(
            channel as nat,
        ) + space() + decimal_bytes(flags as nat) + space() + decimal_bytes(baud as nat)
            + space() + seq![48u8] + crlf(),
        OpenPortCommand::CloseChannel { channel } => at_word(99u8) + decimal_bytes(channel as nat)
            + crlf(),
        OpenPortCommand::TransmitCan { channel, frame } => at_word(116u8) + decimal_bytes(
            channel as nat,
        ) + space() + decimal_bytes(4 + frame.data@.len()) + space() + decimal_bytes(
            if frame.is_extended {
                CAN_29BIT_ID_FLAG as nat
            } else {
                0
            },
        ) + crlf() + be_bytes(frame.id) + frame.data@,
        OpenPortCommand::SetFilter { channel, filter_type, flags, mask, pattern, flow_control } =>
        at_word(102u8) + decimal_bytes(channel as nat) + space() + decimal_bytes(
            filter_type as nat,
        ) + space() + decimal_bytes(flags as nat) + space() + decimal_bytes(mask@.len()) + crlf()
            + mask@ + pattern@ + match flow_control {
            Some(fc) => fc@,
            None => Seq::empty(),
        },
        OpenPortCommand::DeleteFilter { channel, filter_id } => at_word(107u8) + decimal_bytes(
            channel as nat,
        ) + space() + decimal_bytes(filter_id as nat) + crlf(),
        OpenPortCommand::ReadPinVoltage { pin } => at_word(114u8) + space() + decimal_bytes(
            pin as nat,
        ) + crlf(),
    }
}

fn push_decimal_bytes(v: &mut Vec<u8>, n: u64)
    ensures
        final(v)@ == old(v)@ + decimal_bytes(n as nat),
    decreases n,
{
    if n >= 10 {
        push_decimal_bytes(v, n / 10);
    }
    v.push((n % 10 + 48) as u8);
    proof {
        if n >= 10 {
            assert(old(v)@ + decimal_bytes(n as nat) =~= (old(v)@ + decimal_bytes(
                (n / 10) as nat,
            )).push((n % 10 + 48) as u8));
        } else {
            assert(old(v)@ + decimal_bytes(n as nat) =~= old(v)@.push((n + 48) as u8));
        }
    }
}

fn append_bytes(v: &mut Vec<u8>, s: &[u8])
    ensures
        final(v)@ == old(v)@ + s@,
{
    let mut i: usize = 0;
    while i < s.len()
        invariant
            i <= s@.len(),
            v@ == old(v)@ + s@.take(i as int),
        decreases s@.len() - i,
    {
        v.push(s[i]);
        proof {
            assert(s@.take(i + 1) =~= s@.take(i as int).push(s@[i as int]));
        }
        i = i + 1;
    }
    proof {
        assert(s@.take(i as int) =~= s@);
    }
}

fn push_crlf(v: &mut Vec<u8>)
    ensures
        final(v)@ == old(v)@ + crlf(),
{
    v.push(13);
    v.push(10);
    proof {
        assert(final(v)@ =~= old(v)@ + crlf());
    }
}

fn push_at_word(v: &mut Vec<u8>, c: u8)
    ensures
        final(v)@ == old(v)@ + at_word(c),
{
    v.push(97);
    v.push(116);
    v.push(c);
    proof {
        assert(final(v)@ =~= old(v)@ + at_word(c));
    }
}

fn push_space(v: &mut Vec<u8>)
    ensures
        final(v)@ == old(v)@ + space(),
{
    v.push(32);
    proof {
        assert(final(v)@ =~= old(v)@ + space());
    }
}

impl OpenPortCommand {
    /// The bytes of this command for a USB bulk OUT transfer.
    pub fn encode(&self) -> (r: Vec<u8>)
        requires
            self matches OpenPortCommand::TransmitCan { frame, .. } ==> frame.data@.len() + 4
                <= u64::MAX,
        ensures
            r@ == command_bytes(*self),
    {
        let mut v: Vec<u8> = Vec::new();
        let ghost e = Seq::<u8>::empty();
        match self {
            OpenPortCommand::Identify => {
                push_crlf(&mut v);
                push_crlf(&mut v);
                push_at_word(&mut v, 105);
                push_crlf(&mut v);
            },
            OpenPortCommand::Activate => {
                push_at_word(&mut v, 97);
                push_crlf(&mut v);
            },
            OpenPortCommand::Reset => {
                push_at_word(&mut v, 122);
                push_crlf(&mut v);
            },
            OpenPortCommand::OpenChannel { channel, flags, baud } => {
                push_at_word(&mut v, 111);
                push_decimal_bytes(&mut v, *channel as u64);
                push_space(&mut v);
                push_decimal_bytes(&mut v, *flags as u64);
                push_space(&mut v);
                push_decimal_bytes(&mut v, *baud as u64);
                push_space(&mut v);
                v.push(48);
                push_crlf(&mut v);
            },
            OpenPortCommand::CloseChannel { channel } => {
                push_at_word(&mut v, 99);
                push_decimal_bytes(&mut v, *channel as u64);
                push_crlf(&mut v);
            },
            OpenPortCommand::TransmitCan { channel, frame } => {
                let flags: u32 = if frame.is_extended {
                    CAN_29BIT_ID_FLAG
                } else {
                    0
                };
                push_at_word(&mut v, 116);
                push_decimal_bytes(&mut v, *channel as u64);
                push_space(&mut v);
                push_decimal_bytes(&mut v, 4 + frame.data.len() as u64);
                push_space(&mut v);
                push_decimal_bytes(&mut v, flags as u64);
                push_crlf(&mut v);
                push_be32(&mut v, frame.id);
                append_bytes(&mut v, frame.data.as_slice());
            },
            OpenPortCommand::SetFilter { channel, filter_type, flags, mask, pattern, flow_control } =>
            {
                push_at_word(&mut v, 102);
                push_decimal_bytes(&mut v, *channel as u64);
                push_space(&mut v);
                push_decimal_bytes(&mut v, *filter_type as u64);
                push_space(&mut v);
                push_decimal_bytes(&mut v, *flags as u64);
                push_space(&mut v);
                push_decimal_bytes(&mut v, mask.len() as u64);
                push_crlf(&mut v);
                append_bytes(&mut v, mask.as_slice());
                append_bytes(&mut v, pattern.as_slice());
                match flow_control {
                    Some(fc) => append_bytes(&mut v, fc.as_slice()),
                    None => {},
                }
            },
            OpenPortCommand::DeleteFilter { channel, filter_id } => {
                push_at_word(&mut v, 107);
                push_decimal_bytes(&mut v, *channel as u64);
                push_space(&mut v);
                push_decimal_bytes(&mut v, *filter_id as u64);
                push_crlf(&mut v);
            },
            OpenPortCommand::ReadPinVoltage { pin } => {
                push_at_word(&mut v, 114);
                push_space(&mut v);
                push_decimal_bytes(&mut v, *pin as u64);
                push_crlf(&mut v);
            },
        }
        proof {
            assert(v@ =~= command_bytes(*self));
        }
        v
    }
}

/// A decoded reply from the adapter (bulk IN endpoint).
#[derive(Debug, Clone, PartialEq)]
pub enum OpenPortResponse {
    /// Firmware and hardware version (`ari <version>`).
    DeviceInfo(String),
    /// Command accepted (`aro`).
    AckOk,
    /// Hardware filter assigned with this ID (`arf <id>`).
    FilterAssigned(u32),
    /// ADC voltage on a pin in millivolts (`arr <pin> <mV>`).
    PinVoltage { pin: u8, millivolts: u32 },
    /// A received CAN frame with its microsecond timestamp.
    ReceivedCan { channel: u8, frame: CanFrame, timestamp_us: u32 },
    /// Transmission complete.
    TxDone { channel: u8, timestamp_us: u32 },
    /// Device error (`are <code> <message...>`).
    DeviceError { code: u32, message: String },
}

/// The value of an [`OpenPortResponse`], with text as characters.
pub enum ResponseView {
    DeviceInfo(Seq<char>),
    AckOk,
    FilterAssigned(u32),
    PinVoltage { pin: u8, millivolts: u32 },
    ReceivedCan { channel: u8, frame: CanFrameView, timestamp_us: u32 },
    TxDone { channel: u8, timestamp_us: u32 },
    DeviceError { code: u32, message: Seq<char> },
}

impl View for OpenPortResponse {
    type V = ResponseView;

    open spec fn view(&self) -> ResponseView {
        match self {
            OpenPortResponse::DeviceInfo(s) => ResponseView::DeviceInfo(s@),
            OpenPortResponse::AckOk => ResponseView::AckOk,
            OpenPortResponse::FilterAssigned(id) => ResponseView::FilterAssigned(*id),
            OpenPortResponse::PinVoltage { pin, millivolts } => ResponseView::PinVoltage {
                pin: *pin,
                millivolts: *millivolts,
            },
            OpenPortResponse::ReceivedCan { channel, frame, timestamp_us } =>
            ResponseView::ReceivedCan {
                channel: *channel,
                frame: frame@,
                timestamp_us: *timestamp_us,
            },
            OpenPortResponse::TxDone { channel, timestamp_us } => ResponseView::TxDone {
                channel: *channel,
                timestamp_us: *timestamp_us,
            },
            OpenPortResponse::DeviceError { code, message } => ResponseView::DeviceError {
                code: *code,
                message: message@,
            },
        }
    }
}

/// The value of an optional reply.
pub open spec fn reply_view(r: Option<OpenPortResponse>) -> Option<ResponseView> {
    match r {
        Some(x) => Some(x@),
        None => None,
    }
}

/// The characters a received line reads as: ASCII bytes are their own characters; other
/// bytes are decoded as `String::from_utf8_lossy` does (`lossy_text`).
pub open spec fn lossy_of(bytes: Seq<u8>) -> Seq<char> {
    if forall|i: int| 0 <= i < bytes.len() ==> bytes[i] < 128 {
        Seq::new(bytes.len(), |i: int| bytes[i] as char)
    } else {
        lossy_text(bytes)
    }
}

/// Name for what `String::from_utf8_lossy` makes of a byte string, as characters.
pub uninterp spec fn lossy_text(bytes: Seq<u8>) -> Seq<char>;

/// `String::from_utf8_lossy`, as a vector of characters. Its result is named by
/// `lossy_text`; stated besides: bytes that are all ASCII give their own characters.
/// What it makes of other bytes (UTF-8 decoding, with U+FFFD for each invalid
/// sequence) is left to the name.
#[verifier::external_body]
fn utf8_lossy_chars(bytes: &[u8]) -> (r: Vec<char>)
    ensures
        r@ == lossy_text(bytes@),
        (forall|i: int| 0 <= i < bytes@.len() ==> bytes@[i] < 128) ==> r@ == Seq::new(
            bytes@.len(),
            |i: int| bytes@[i] as char,
        ),
{
    String::from_utf8_lossy(bytes).chars().collect()
}

/// The first position `i >= from` with `s[i] == x` and `s[i + 1] == y`.
pub open spec fn first_pair(s: Seq<u8>, x: u8, y: u8, from: nat) -> Option<nat>
    decreases s.len() - from,
{
    if from + 1 >= s.len() {
        None
    } else if s[from as int] == x && s[from + 1 as int] == y {
        Some(from)
    } else {
        first_pair(s, x, y, from + 1)
    }
}

fn find_pair(s: &[u8], x: u8, y: u8) -> (r: Option<usize>)
    ensures
        r matches Some(i) ==> first_pair(s@, x, y, 0) == Some(i as nat) && i + 1 < s@.len(),
        r is None ==> first_pair(s@, x, y, 0) is None,
{
    proof {
        lemma_first_pair_bound(s@, x, y, 0);
    }
    if s.len() < 2 {
        return None;
    }
    let n = s.len() - 1;
    let mut i: usize = 0;
    while i < n
        invariant
            n + 1 == s@.len(),
            i <= n,
            first_pair(s@, x, y, 0) == first_pair(s@, x, y, i as nat),
        decreases n - i,
    {
        if s[i] == x && s[i + 1] == y {
            return Some(i);
        }
        i = i + 1;
    }
    None
}

/// Tags of the ASCII replies: `o`, `i`, `f`, `r`, `e`.
pub open spec fn is_text_tag(t: u8) -> bool {
    t == 111 || t == 105 || t == 102 || t == 114 || t == 101
}

/// Tags of binary CAN packets: the raw CAN and ISO 15765 channel IDs, as bytes or digits.
pub open spec fn is_can_tag(t: u8) -> bool {
    t == CHANNEL_CAN || t == CHANNEL_ISO15765 || t == 53 || t == 54
}

/// What the decoder makes of one line or packet.
pub enum Verdict {
    /// Return this reply.
    Reply(ResponseView),
    /// Drop it and go on.
    Skip,
    /// A reply that cannot be read: drop it and go on.
    Malformed,
}

/// The three-character word `abc`.
pub open spec fn word(a: char, b: char, c: char) -> Seq<char> {
    seq![a, b, c]
}

/// `u32::MAX` as a bound.
pub open spec fn u32_max() -> nat {
    0xFFFF_FFFF
}

/// What the decoder makes of the white-space separated tokens of one reply line.
pub open spec fn line_verdict(tokens: Seq<Seq<char>>) -> Verdict {
    if tokens.len() == 0 {
        Verdict::Skip
    } else {
        let t0 = tokens[0];
        if t0 == word('a', 'r', 'o') {
            Verdict::Reply(ResponseView::AckOk)
        } else if t0 == word('a', 'r', 'i') {
            Verdict::Reply(ResponseView::DeviceInfo(join_spaced(tokens.skip(1))))
        } else if t0 == word('a', 'r', 'f') {
            if tokens.len() > 1 && parse_unsigned(tokens[1], u32_max()) is Some {
                Verdict::Reply(
                    ResponseView::FilterAssigned(parse_unsigned(tokens[1], u32_max())->0 as u32),
                )
            } else {
                Verdict::Reply(ResponseView::AckOk)
            }
        } else if t0 == word('a', 'r', 'r') {
            if tokens.len() >= 3 && parse_unsigned(tokens[1], 255) is Some && parse_unsigned(
                tokens[2],
                u32_max(),
            ) is Some {
                Verdict::Reply(
                    ResponseView::PinVoltage {
                        pin: parse_unsigned(tokens[1], 255)->0 as u8,
                        millivolts: parse_unsigned(tokens[2], u32_max())->0 as u32,
                    },
                )
            } else {
                Verdict::Malformed
            }
        } else if t0 == word('a', 'r', 'e') {
            let code: u32 = if tokens.len() > 1 && parse_unsigned(tokens[1], u32_max()) is Some {
                parse_unsigned(tokens[1], u32_max())->0 as u32
            } else {
                1
            };
            let message = if tokens.len() > 2 {
                join_spaced(tokens.skip(2))
            } else {
                Seq::empty()
            };
            Verdict::Reply(ResponseView::DeviceError { code, message })
        } else {
            Verdict::Skip
        }
    }
}

/// What the decoder makes of one binary packet: `a r channel payload_len` and the payload
/// (packet type, big-endian timestamp, then for a frame its big-endian ID and data).
pub open spec fn packet_verdict(packet: Seq<u8>) -> Verdict {
    let plen = packet[3];
    if plen < 5 {
        Verdict::Skip
    } else {
        let ts = be_value(packet[5], packet[6], packet[7], packet[8]);
        match packet_type_of(packet[4]) {
            Some(PacketType::TxDone) => Verdict::Reply(
                ResponseView::TxDone { channel: packet[2], timestamp_us: ts },
            ),
            Some(PacketType::NormMsg) | Some(PacketType::TxLoopback) | Some(PacketType::MsgEnd) => {
                if plen >= 9 {
                    let id = be_value(packet[9], packet[10], packet[11], packet[12]);
                    let frame = data_frame(id, id > MAX_STANDARD_CAN_ID, packet.skip(13));
                    Verdict::Reply(
                        ResponseView::ReceivedCan {
                            channel: packet[2],
                            frame: CanFrameView { timestamp_us: ts as u64, ..frame },
                            timestamp_us: ts,
                        },
                    )
                } else {
                    Verdict::Malformed
                }
            },
            _ => Verdict::Skip,
        }
    }
}

/// One pass of the decoder over its buffer.
pub enum DecodeStep {
    /// Return `reply`, leaving `rest` buffered.
    Return { reply: Option<ResponseView>, rest: Seq<u8> },
    /// Go on with `rest` buffered.
    Again { rest: Seq<u8> },
}

/// Where a line or packet verdict leads, with `rest` the bytes after it: a reply is
/// returned; a skipped or malformed line or packet is dropped, and decoding goes on
/// with what follows it.
pub open spec fn after_verdict(v: Verdict, rest: Seq<u8>) -> DecodeStep {
    match v {
        Verdict::Reply(r) => DecodeStep::Return { reply: Some(r), rest },
        Verdict::Skip => DecodeStep::Again { rest },
        Verdict::Malformed => DecodeStep::Again { rest },
    }
}

/// One pass: resynchronise on `ar`, then read one ASCII reply line or one binary packet.
pub open spec fn decode_step(buf: Seq<u8>) -> DecodeStep {
    if buf.len() == 0 {
        DecodeStep::Return { reply: None, rest: buf }
    } else {
        match first_pair(buf, 97u8, 114u8, 0) {
            None => DecodeStep::Return {
                reply: None,
                rest: if buf.last() == 97u8 {
                    seq![97u8]
                } else {
                    Seq::empty()
                },
            },
            Some(start) => {
                let b = buf.skip(start as int);
                if b.len() < 3 {
                    DecodeStep::Return { reply: None, rest: b }
                } else if is_text_tag(b[2]) {
                    match first_pair(b, 13u8, 10u8, 0) {
                        None => DecodeStep::Return { reply: None, rest: b },
                        Some(p) => after_verdict(
                            line_verdict(ws_tokens(lossy_of(b.take(p as int)))),
                            b.skip(p + 2 as int),
                        ),
                    }
                } else if is_can_tag(b[2]) {
                    if b.len() < 4 || b.len() < 4 + b[3] {
                        DecodeStep::Return { reply: None, rest: b }
                    } else {
                        after_verdict(packet_verdict(b.take(4 + b[3])), b.skip(4 + b[3]))
                    }
                } else {
                    DecodeStep::Again { rest: b.skip(2) }
                }
            },
        }
    }
}

/// Passes of the decoder until one returns: the reply, if a complete one was found,
/// and the bytes left buffered.
pub open spec fn decode_next(buf: Seq<u8>) -> (Option<ResponseView>, Seq<u8>)
    decreases buf.len(),
{
    match decode_step(buf) {
        DecodeStep::Return { reply, rest } => (reply, rest),
        DecodeStep::Again { rest } => {
            proof {
                lemma_again_shrinks(buf);
            }
            decode_next(rest)
        },
    }
}

enum VerdictOut {
    Reply(OpenPortResponse),
    Skip,
    Malformed,
}

spec fn verdict_out_view(v: VerdictOut) -> Verdict {
    match v {
        VerdictOut::Reply(r) => Verdict::Reply(r@),
        VerdictOut::Skip => Verdict::Skip,
        VerdictOut::Malformed => Verdict::Malformed,
    }
}

fn is_word(t: &Vec<char>, a: char, b: char, c: char) -> (r: bool)
    ensures
        r == (t@ == word(a, b, c)),
{
    if t.len() == 3 && t[0] == a && t[1] == b && t[2] == c {
        proof {
            assert(t@ =~= word(a, b, c));
        }
        true
    } else {
        proof {
            if t@ == word(a, b, c) {
                assert(t@[0] == a && t@[1] == b && t@[2] == c);
            }
        }
        false
    }
}

fn decode_line(tokens: &Vec<Vec<char>>) -> (r: VerdictOut)
    ensures
        verdict_out_view(r) == line_verdict(seqs_of(tokens@)),
{
    let ghost ts = seqs_of(tokens@);
    if tokens.len() == 0 {
        return VerdictOut::Skip;
    }
    let t0 = &tokens[0];
    proof {
        assert(ts[0] == t0@);
    }
    if is_word(t0, 'a', 'r', 'o') {
        VerdictOut::Reply(OpenPortResponse::AckOk)
    } else if is_word(t0, 'a', 'r', 'i') {
        VerdictOut::Reply(OpenPortResponse::DeviceInfo(join_tokens_from(tokens, 1)))
    } else if is_word(t0, 'a', 'r', 'f') {
        if tokens.len() > 1 {
            proof {
                assert(ts[1] == tokens@[1]@);
            }
            match parse_bounded(tokens[1].as_slice(), 0xFFFF_FFFF) {
                Some(id) => VerdictOut::Reply(OpenPortResponse::FilterAssigned(id)),
                None => VerdictOut::Reply(OpenPortResponse::AckOk),
            }
        } else {
            VerdictOut::Reply(OpenPortResponse::AckOk)
        }
    } else if is_word(t0, 'a', 'r', 'r') {
        if tokens.len() >= 3 {
            proof {
                assert(ts[1] == tokens@[1]@);
                assert(ts[2] == tokens@[2]@);
            }
            let pin = parse_bounded(tokens[1].as_slice(), 255);
            let mv = parse_bounded(tokens[2].as_slice(), 0xFFFF_FFFF);
            match (pin, mv) {
                (Some(p), Some(m)) => VerdictOut::Reply(
                    OpenPortResponse::PinVoltage { pin: p as u8, millivolts: m },
                ),
                _ => VerdictOut::Malformed,
            }
        } else {
            VerdictOut::Malformed
        }
    } else if is_word(t0, 'a', 'r', 'e') {
        let mut code: u32 = 1;
        if tokens.len() > 1 {
            proof {
                assert(ts[1] == tokens@[1]@);
            }
            match parse_bounded(tokens[1].as_slice(), 0xFFFF_FFFF) {
                Some(c) => {
                    code = c;
                },
                None => {},
            }
        }
        let message = if tokens.len() > 2 {
            join_tokens_from(tokens, 2)
        } else {
            String::new()
        };
        VerdictOut::Reply(OpenPortResponse::DeviceError { code, message })
    } else {
        VerdictOut::Skip
    }
}

fn decode_packet(packet: &[u8]) -> (r: VerdictOut)
    requires
        packet@.len() >= 4,
        packet@.len() == 4 + packet@[3],
    ensures
        verdict_out_view(r) == packet_verdict(packet@),
{
    let plen = packet[3];
    if plen < 5 {
        return VerdictOut::Skip;
    }
    let ts = be_read(packet, 5);
    match PacketType::from_u8(packet[4]) {
        Some(PacketType::TxDone) => VerdictOut::Reply(
            OpenPortResponse::TxDone { channel: packet[2], timestamp_us: ts },
        ),
        Some(PacketType::NormMsg) | Some(PacketType::TxLoopback) | Some(PacketType::MsgEnd) => {
            if plen >= 9 {
                let id = be_read(packet, 9);
                let data = &packet[13..packet.len()];
                proof {
                    assert(data@ =~= packet@.skip(13));
                }
                let frame = if id > MAX_STANDARD_CAN_ID {
                    CanFrame::new_extended(id, data).with_timestamp(ts as u64)
                } else {
                    CanFrame::new_standard(id as u16, data).with_timestamp(ts as u64)
                };
                VerdictOut::Reply(
                    OpenPortResponse::ReceivedCan { channel: packet[2], frame, timestamp_us: ts },
                )
            } else {
                VerdictOut::Malformed
            }
        },
        _ => VerdictOut::Skip,
    }
}

enum StepOut {
    Return(Option<OpenPortResponse>, Vec<u8>),
    Again(Vec<u8>),
}

spec fn step_out_matches(o: StepOut, d: DecodeStep) -> bool {
    match o {
        StepOut::Return(r, rest) => d == DecodeStep::Return { reply: reply_view(r), rest: rest@ },
        StepOut::Again(rest) => d == DecodeStep::Again { rest: rest@ },
    }
}

fn after_verdict_out(v: VerdictOut, rest: Vec<u8>) -> (r: StepOut)
    ensures
        step_out_matches(r, after_verdict(verdict_out_view(v), rest@)),
{
    match v {
        VerdictOut::Reply(x) => StepOut::Return(Some(x), rest),
        VerdictOut::Skip => StepOut::Again(rest),
        VerdictOut::Malformed => StepOut::Again(rest),
    }
}

fn decode_step_out(buf: Vec<u8>) -> (r: StepOut)
    ensures
        step_out_matches(r, decode_step(buf@)),
{
    if buf.len() == 0 {
        return StepOut::Return(None, buf);
    }
    match find_pair(buf.as_slice(), 97, 114) {
        None => {
            let mut rest: Vec<u8> = Vec::new();
            if buf[buf.len() - 1] == 97 {
                rest.push(97);
            }
            proof {
                assert(buf@.last() == buf@[buf@.len() - 1]);
                if buf@.last() == 97u8 {
                    assert(rest@ =~= seq![97u8]);
                } else {
                    assert(rest@ =~= Seq::<u8>::empty());
                }
            }
            StepOut::Return(None, rest)
        },
        Some(start) => {
            let mut head = buf;
            let b = head.split_off(start);
            proof {
                assert(b@ =~= buf@.skip(start as int));
            }
            if b.len() < 3 {
                return StepOut::Return(None, b);
            }
            let tag = b[2];
            if tag == 111 || tag == 105 || tag == 102 || tag == 114 || tag == 101 {
                match find_pair(b.as_slice(), 13, 10) {
                    None => StepOut::Return(None, b),
                    Some(p) => {
                        let mut line = b;
                        let rest = line.split_off(p + 2);
                        line.truncate(p);
                        let ghost bb = buf@.skip(start as int);
                        proof {
                            assert(line@ =~= bb.take(p as int));
                            assert(rest@ =~= bb.skip(p + 2));
                        }
                        let text = utf8_lossy_chars(line.as_slice());
                        let tokens = split_whitespace(text.as_slice());
                        let v = decode_line(&tokens);
                        after_verdict_out(v, rest)
                    },
                }
            } else if tag == CHANNEL_CAN || tag == CHANNEL_ISO15765 || tag == 53 || tag == 54 {
                if b.len() < 4 {
                    return StepOut::Return(None, b);
                }
                let total: usize = 4 + b[3] as usize;
                if b.len() < total {
                    return StepOut::Return(None, b);
                }
                let mut packet = b;
                let rest = packet.split_off(total);
                let ghost bb = buf@.skip(start as int);
                proof {
                    assert(packet@ =~= bb.take(total as int));
                    assert(rest@ =~= bb.skip(total as int));
                }
                let v = decode_packet(packet.as_slice());
                after_verdict_out(v, rest)
            } else {
                let mut head = b;
                let tail = head.split_off(2);
                StepOut::Again(tail)
            }
        },
    }
}

fn decode_buffer(buf: Vec<u8>) -> (r: (Option<OpenPortResponse>, Vec<u8>))
    ensures
        decode_next(buf@) == (reply_view(r.0), r.1@),
{
    let mut b = buf;
    loop
        invariant
            decode_next(b@) == decode_next(buf@),
        decreases b@.len(),
    {
        let ghost cur = b@;
        match decode_step_out(b) {
            StepOut::Return(reply, rest) => {
                return (reply, rest);
            },
            StepOut::Again(rest) => {
                proof {
                    assert(rest@.len() < cur.len()) by {
                        lemma_again_shrinks(cur);
                    }
                }
                b = rest;
            },
        }
    }
}

/// A pass that goes on leaves a strictly shorter buffer.
pub proof fn lemma_again_shrinks(buf: Seq<u8>)
    ensures
        decode_step(buf) matches DecodeStep::Again { rest } ==> rest.len() < buf.len(),
{
    if buf.len() > 0 {
        match first_pair(buf, 97u8, 114u8, 0) {
            None => {},
            Some(start) => {
                lemma_first_pair_bound(buf, 97u8, 114u8, 0);
                let b = buf.skip(start as int);
                lemma_first_pair_bound(b, 13u8, 10u8, 0);
            },
        }
    }
}

/// A pair found by `first_pair` lies at or after `from`, inside `s`, and is `x, y`.
pub proof fn lemma_first_pair_bound(s: Seq<u8>, x: u8, y: u8, from: nat)
    ensures
        first_pair(s, x, y, from) matches Some(i) ==> from <= i && i + 1 < s.len() && s[i as int]
            == x && s[i + 1 as int] == y,
    decreases s.len() - from,
{
    if from + 1 < s.len() {
        lemma_first_pair_bound(s, x, y, from + 1);
    }
}

/// Stream decoder for OpenPort bulk IN data.
#[derive(Debug, Default)]
pub struct OpenPortDecoder {
    buffer: Vec<u8>,
}

impl View for OpenPortDecoder {
    type V = Seq<u8>;

    closed spec fn view(&self) -> Seq<u8> {
        self.buffer@
    }
}

impl OpenPortDecoder {
    /// A decoder with an empty buffer.
    pub fn new() -> (r: Self)
        ensures
            r@ == Seq::<u8>::empty(),
    {
        OpenPortDecoder { buffer: Vec::new() }
    }

    /// Appends bytes received from the device.
    pub fn feed(&mut self, data: &[u8])
        ensures
            final(self)@ == old(self)@ + data@,
    {
        append_bytes(&mut self.buffer, data);
    }

    /// Drops everything buffered.
    pub fn clear(&mut self)
        ensures
            final(self)@ == Seq::<u8>::empty(),
    {
        self.buffer.clear();
    }

    /// Number of bytes buffered and not yet decoded.
    pub fn buffered_len(&self) -> (r: usize)
        ensures
            r == self@.len(),
    {
        self.buffer.len()
    }

    /// Decodes the next complete reply, or returns `None` when more bytes are needed;
    /// garbage before a reply and malformed replies are dropped.
    pub fn next_response(&mut self) -> (r: Option<OpenPortResponse>)
        ensures
            decode_next(old(self)@) == (reply_view(r), final(self)@),
    {
        let mut buf: Vec<u8> = Vec::new();
        std::mem::swap(&mut buf, &mut self.buffer);
        let (reply, rest) = decode_buffer(buf);
        self.buffer = rest;
        reply
    }
}

} // verus!
