//! A simulated W211 engine ECU answering UDS requests over ISO-TP, for running the
//! tool without a vehicle: the reply to each request frame and the simulator state
//! that multi-frame transfers, DTC clearing and fault injection change.

use crate::frame::{data_frame, CanFrame, CanFrameView};
use vstd::prelude::*;

verus! {

/// What the simulated ECU answers to one request.
pub enum SimReply {
    /// No reply.
    Silent,
    /// A single frame with these data bytes.
    Frame(Seq<u8>),
    /// A multi-frame (ISO-TP) reply carrying this payload.
    Multi(Seq<u8>),
}

/// The bytes of a reply.
pub open spec fn reply_bytes(r: SimReply) -> Seq<u8> {
    match r {
        SimReply::Silent => Seq::empty(),
        SimReply::Frame(b) => b,
        SimReply::Multi(b) => b,
    }
}

/// The reply to ReadDataByIdentifier for `did`, given the simulated engine speed.
pub open spec fn did_reply(did: u16, base_rpm: u16) -> SimReply {
    if did == 0x0100 {
        SimReply::Frame(seq![0x05u8, 0x62, 0x01, 0x00, ((base_rpm * 4) / 256) as u8, ((base_rpm * 4) % 256) as u8, 0xAA, 0xAA])
    } else if did == 0x0105 {
        SimReply::Frame(seq![0x4u8, 0x62, 0x1, 0x5, 0x80, 0xaa, 0xaa, 0xaa])
    } else if did == 0x200B {
        SimReply::Frame(seq![0x5u8, 0x62, 0x20, 0xb, 0xc, 0x80, 0xaa, 0xaa])
    } else if did == 0x2010 {
        SimReply::Frame(seq![0x5u8, 0x62, 0x20, 0x10, 0x4, 0x10, 0xaa, 0xaa])
    } else if did == 0x2021 {
        SimReply::Frame(seq![0x5u8, 0x62, 0x20, 0x21, 0x2, 0xa, 0xaa, 0xaa])
    } else if did == 0x2022 {
        SimReply::Frame(seq![0x5u8, 0x62, 0x20, 0x22, 0x1, 0xe5, 0xaa, 0xaa])
    } else if did == 0x2023 {
        SimReply::Frame(seq![0x5u8, 0x62, 0x20, 0x23, 0x1, 0xd4, 0xaa, 0xaa])
    } else if did == 0x2024 {
        SimReply::Frame(seq![0x5u8, 0x62, 0x20, 0x24, 0x2, 0xd, 0xaa, 0xaa])
    } else if did == 0x2001 {
        SimReply::Frame(seq![0x4u8, 0x62, 0x20, 0x1, 0x78, 0xaa, 0xaa, 0xaa])
    } else if did == 0x2002 {
        SimReply::Frame(seq![0x5u8, 0x62, 0x20, 0x2, 0x0, 0x10, 0xaa, 0xaa])
    } else if did == 0x2003 {
        SimReply::Frame(seq![0x05u8, 0x62, 0x20, 0x03, (base_rpm / 256) as u8, (base_rpm % 256) as u8, 0xAA, 0xAA])
    } else if did == 0x2050 {
        SimReply::Frame(seq![0x5u8, 0x62, 0x20, 0x50, 0x9, 0x92, 0xaa, 0xaa])
    } else if did == 0x2051 {
        SimReply::Frame(seq![0x4u8, 0x62, 0x20, 0x51, 0x8e, 0xaa, 0xaa, 0xaa])
    } else if did == 0xF187 {
        SimReply::Frame(seq![0x7u8, 0x62, 0xf1, 0x87, 0x36, 0x34, 0x36, 0x31])
    } else if did == 0xF188 {
        SimReply::Frame(seq![0x7u8, 0x62, 0xf1, 0x88, 0x10, 0x37, 0x38, 0x66])
    } else if did == 0xF189 {
        SimReply::Frame(seq![0x7u8, 0x62, 0xf1, 0x89, 0x0, 0x24, 0x48, 0x33])
    } else if did == 0xF190 {
        SimReply::Frame(seq![0x7u8, 0x62, 0xf1, 0x90, 0x57, 0x44, 0x42, 0x32])
    } else if did == 0xF1A0 {
        SimReply::Frame(seq![0x7u8, 0x62, 0xf1, 0xa0, 0x57, 0x44, 0x42, 0x32])
    } else if did == 0xF191 {
        SimReply::Frame(seq![0x7u8, 0x62, 0xf1, 0x91, 0x0, 0x1, 0x53, 0x54])
    } else if did == 0xF192 {
        SimReply::Multi(seq![0x62u8, 0xf1, 0x92, 0x30, 0x32, 0x38, 0x31, 0x30, 0x31, 0x32, 0x32, 0x32, 0x34])
    } else if did == 0xF194 {
        SimReply::Multi(seq![0x62u8, 0xf1, 0x94, 0x31, 0x30, 0x33, 0x37, 0x33, 0x37, 0x32, 0x33, 0x33, 0x32])
    } else if did == 0xF197 {
        SimReply::Frame(seq![0x7u8, 0x62, 0xf1, 0x97, 0x43, 0x52, 0x34, 0x20])
    } else if did == 0x2030 {
        SimReply::Frame(seq![0x7u8, 0x62, 0x20, 0x30, 0x37, 0x42, 0x38, 0x48])
    } else if did == 0x2031 {
        SimReply::Frame(seq![0x7u8, 0x62, 0x20, 0x31, 0x41, 0x38, 0x42, 0x31])
    } else if did == 0x2032 {
        SimReply::Frame(seq![0x7u8, 0x62, 0x20, 0x32, 0x39, 0x4b, 0x34, 0x4d])
    } else if did == 0x2033 {
        SimReply::Frame(seq![0x7u8, 0x62, 0x20, 0x33, 0x35, 0x4a, 0x37, 0x54])
    } else if did == 0x0320 {
        SimReply::Frame(seq![0x4u8, 0x62, 0x3, 0x20, 0x1, 0xaa, 0xaa, 0xaa])
    } else if did == 0x0240 {
        SimReply::Frame(seq![0x5u8, 0x62, 0x2, 0x40, 0x1, 0x90, 0xaa, 0xaa])
    } else if did == 0x0110 {
        SimReply::Frame(seq![0x5u8, 0x62, 0x1, 0x10, 0x0, 0xfa, 0xaa, 0xaa])
    } else if did == 0x0201 {
        SimReply::Frame(seq![0x4u8, 0x62, 0x2, 0x1, 0x1, 0xaa, 0xaa, 0xaa])
    } else if did == 0x0205 {
        SimReply::Frame(seq![0x4u8, 0x62, 0x2, 0x5, 0x1, 0xaa, 0xaa, 0xaa])
    } else if did == 0x0310 {
        SimReply::Frame(seq![0x4u8, 0x62, 0x3, 0x10, 0x1, 0xaa, 0xaa, 0xaa])
    } else {
        SimReply::Frame(seq![0x03u8, 0x7F, 0x22, 0x31])
    }
}

/// State of the simulated ECU.
pub struct SimState {
    pub dtc_cleared: bool,
    pub sid: u8,
    pub bsc: u8,
    pub did: u16,
    pub expected_cfs: u32,
    pub received_cfs: u32,
    pub pending: Seq<CanFrameView>,
    pub failing: Seq<u8>,
}

/// The simulated ECU.
#[derive(Debug)]
pub struct EcuSimulator {
    dtc_cleared: bool,
    last_multi_frame_sid: u8,
    last_multi_frame_bsc: u8,
    last_multi_frame_did: u16,
    expected_cfs: u32,
    received_cfs: u32,
    pending_cfs: Vec<CanFrame>,
    failing_services: Vec<u8>,
}

impl View for EcuSimulator {
    type V = SimState;

    closed spec fn view(&self) -> SimState {
        SimState {
            dtc_cleared: self.dtc_cleared,
            sid: self.last_multi_frame_sid,
            bsc: self.last_multi_frame_bsc,
            did: self.last_multi_frame_did,
            expected_cfs: self.expected_cfs,
            received_cfs: self.received_cfs,
            pending: self.pending_cfs@.map_values(|f: CanFrame| f@),
            failing: self.failing_services@,
        }
    }
}

/// The reply arbitration ID for a request ID: 0x7E8 for the functional address and
/// unknown IDs, request + 8 for physical requests 0x700..=0x7EF.
pub open spec fn response_id(req_id: u32) -> u16 {
    if req_id == 0x7DF {
        0x7E8
    } else if 0x700 <= req_id <= 0x7EF {
        (req_id + 8) as u16
    } else {
        0x7E8
    }
}

/// Big-endian 16-bit value.
pub open spec fn be16(a: u8, b: u8) -> u16 {
    (a * 256 + b) as u16
}

/// Whether the simulator answers this service with RequestOutOfRange.
pub open spec fn failing(s: SimState, sid: u8) -> bool {
    s.failing.contains(sid)
}

/// The reply once all consecutive frames of a multi-frame request have arrived.
pub open spec fn transfer_reply(s: SimState, p: Seq<u8>) -> SimReply {
    let sid = s.sid;
    if failing(s, sid) {
        SimReply::Frame(seq![0x03u8, 0x7F, sid, 0x31])
    } else if sid == 0x3D {
        SimReply::Frame(seq![0x02u8, 0x7D, 0x24, 0xAA, 0xAA, 0xAA, 0xAA, 0xAA])
    } else if sid == 0x23 {
        let n: nat = if p.len() >= 3 {
            be16(p[1], p[2]) as nat
        } else {
            0
        };
        if n == 0 || n > 6 {
            SimReply::Frame(seq![0x03u8, 0x7F, 0x23, 0x31])
        } else {
            SimReply::Frame(seq![(1 + n) as u8, 0x63u8] + Seq::new(n, |i: int| 0u8))
        }
    } else if sid == 0x34 {
        SimReply::Frame(seq![0x04u8, 0x74, 0x20, 0x0F, 0xFF])
    } else if sid == 0x36 {
        SimReply::Frame(seq![0x02u8, 0x76, s.bsc])
    } else if sid == 0x2E {
        SimReply::Frame(seq![0x03u8, 0x6E, (s.did / 256) as u8, (s.did % 256) as u8])
    } else {
        SimReply::Frame(seq![0x03u8, 0x7F, sid, 0x11])
    }
}

/// The reply to a single-frame request for `service`.
pub open spec fn service_reply(s: SimState, service: u8, p: Seq<u8>, base_rpm: u16) -> SimReply {
    let sub1: u8 = if p.len() > 2 {
        p[2]
    } else {
        1
    };
    if service == 0x10 {
        SimReply::Frame(seq![0x06u8, 0x50, sub1, 0x00, 0x32, 0x01, 0xF4])
    } else if service == 0x11 {
        SimReply::Frame(seq![0x02u8, 0x51, sub1])
    } else if service == 0x27 {
        if sub1 % 2 == 1 {
            SimReply::Frame(seq![0x06u8, 0x67, sub1, 0x12, 0x34, 0x56, 0x78])
        } else {
            SimReply::Frame(seq![0x02u8, 0x67, sub1])
        }
    } else if service == 0x3E {
        if p.len() > 2 && p[2] >= 0x80 {
            SimReply::Silent
        } else {
            SimReply::Frame(seq![0x02u8, 0x7E, 0x00])
        }
    } else if service == 0x37 {
        SimReply::Frame(seq![0x01u8, 0x77])
    } else if service == 0x28 {
        SimReply::Frame(seq![0x02u8, 0x68, sub1])
    } else if service == 0x85 {
        SimReply::Frame(seq![0x02u8, 0xC5, if p.len() > 2 { p[2] } else { 2u8 }])
    } else if service == 0x34 {
        SimReply::Frame(seq![0x04u8, 0x74, 0x20, 0x0F, 0xFF])
    } else if service == 0x22 {
        if p.len() < 4 {
            SimReply::Silent
        } else {
            did_reply(be16(p[2], p[3]), base_rpm)
        }
    } else if service == 0x19 {
        if s.dtc_cleared {
            SimReply::Frame(seq![0x02u8, 0x59, 0x02])
        } else {
            SimReply::Frame(seq![0x06u8, 0x59, 0x02, 0x2F, 0x01, 0x00, 0x28])
        }
    } else if service == 0x14 {
        SimReply::Frame(seq![0x01u8, 0x54])
    } else if service == 0x2E {
        if p.len() >= 4 {
            SimReply::Frame(seq![0x03u8, 0x6E, p[2], p[3]])
        } else {
            SimReply::Frame(seq![0x03u8, 0x7F, 0x2E, 0x13])
        }
    } else if service == 0x31 {
        if p.len() >= 5 {
            SimReply::Frame(seq![0x05u8, 0x71, p[2], p[3], p[4], 0x00])
        } else {
            SimReply::Frame(seq![0x03u8, 0x7F, 0x31, 0x13])
        }
    } else if service == 0x3D {
        SimReply::Frame(seq![0x02u8, 0x7D, 0x24])
    } else if service == 0x23 {
        SimReply::Frame(seq![0x04u8, 0x63, 0x00, 0x00, 0x00])
    } else {
        SimReply::Frame(seq![0x03u8, 0x7F, service, 0x11])
    }
}

/// One request: the next state and the reply (before multi-frame replies are framed).
pub open spec fn sim_step(s: SimState, p: Seq<u8>, base_rpm: u16) -> (SimState, SimReply) {
    if p.len() == 0 {
        (s, SimReply::Silent)
    } else {
        let pci_type = p[0] / 16;
        if pci_type == 1 {
            let total: nat = ((p[0] % 16) * 256 + p[1]) as nat;
            let needed: nat = if total > 6 {
                ((total - 6 + 6) / 7) as nat
            } else {
                1
            };
            let s2 = SimState {
                expected_cfs: needed as u32,
                received_cfs: 0,
                sid: if p.len() >= 3 {
                    p[2]
                } else {
                    s.sid
                },
                did: if p.len() >= 5 && p[2] == 0x2E {
                    be16(p[3], p[4])
                } else {
                    s.did
                },
                bsc: if p.len() >= 4 && p[2] == 0x36 {
                    p[3]
                } else {
                    s.bsc
                },
                ..s
            };
            (s2, SimReply::Frame(seq![0x30u8, 0x00, 0x00, 0xAA, 0xAA, 0xAA, 0xAA, 0xAA]))
        } else if pci_type == 2 {
            let received = (s.received_cfs + 1) % 0x1_0000_0000;
            let s2 = SimState { received_cfs: received as u32, ..s };
            if received < s.expected_cfs {
                (s2, SimReply::Silent)
            } else {
                (s2, transfer_reply(s2, p))
            }
        } else if pci_type == 0 && p.len() <= 1 {
            (s, SimReply::Silent)
        } else {
            let service = if pci_type == 0 {
                p[1]
            } else {
                p[0]
            };
            if failing(s, service) {
                (s, SimReply::Frame(seq![0x03u8, 0x7F, service, 0x31]))
            } else if service == 0x14 {
                (SimState { dtc_cleared: true, ..s }, service_reply(s, service, p, base_rpm))
            } else {
                (s, service_reply(s, service, p, base_rpm))
            }
        }
    }
}

/// Consecutive frames for the rest of a multi-frame payload, numbered from `sn`.
pub open spec fn consecutive_frames(rid: u16, rest: Seq<u8>, sn: u8) -> Seq<CanFrameView>
    decreases rest.len(),
{
    if rest.len() == 0 {
        Seq::empty()
    } else {
        let n: int = if rest.len() < 7 {
            rest.len() as int
        } else {
            7
        };
        let cf = seq![(0x20 + sn % 16) as u8] + rest.take(n) + Seq::new((7 - n) as nat, |i: int| 0xAAu8);
        seq![data_frame(rid as u32, false, cf)] + consecutive_frames(
            rid,
            rest.skip(n),
            ((sn + 1) % 256 % 16) as u8,
        )
    }
}

/// Length a multi-frame reply announces: the payload length, at most 0xFFF.
pub open spec fn announced_len(m: Seq<u8>) -> nat {
    if m.len() < 0xFFF {
        m.len()
    } else {
        0xFFF
    }
}

/// The first frame of a multi-frame reply.
pub open spec fn first_frame_bytes(m: Seq<u8>) -> Seq<u8> {
    let len = announced_len(m);
    let k: int = if len < 6 {
        len as int
    } else {
        6
    };
    seq![(0x10 + len / 256) as u8, (len % 256) as u8] + m.take(k)
}

/// The consecutive frames of a multi-frame reply.
pub open spec fn multi_frame_rest(rid: u16, m: Seq<u8>) -> Seq<CanFrameView> {
    let len = announced_len(m);
    let k: int = if len < 6 {
        len as int
    } else {
        6
    };
    consecutive_frames(rid, m.subrange(k, len as int), 1)
}

/// The frame answered to a request with `req_id` and data `p`, and the next state;
/// a multi-frame reply sends its first frame and parks the rest.
pub open spec fn sim_answer(s: SimState, req_id: u32, p: Seq<u8>, base_rpm: u16) -> (SimState, Option<CanFrameView>) {
    let (s2, reply) = sim_step(s, p, base_rpm);
    let rid = response_id(req_id);
    match reply {
        SimReply::Silent => (s2, None),
        SimReply::Frame(b) => (s2, Some(data_frame(rid as u32, false, b))),
        SimReply::Multi(m) => (
            SimState { pending: multi_frame_rest(rid, m), ..s2 },
            Some(data_frame(rid as u32, false, first_frame_bytes(m))),
        ),
    }
}

enum SimReplyOut {
    Silent,
    Frame(Vec<u8>),
    Multi(Vec<u8>),
}

spec fn reply_out_matches(o: SimReplyOut, r: SimReply) -> bool {
    match o {
        SimReplyOut::Silent => r is Silent,
        SimReplyOut::Frame(b) => r matches SimReply::Frame(x) && b@ == x,
        SimReplyOut::Multi(b) => r matches SimReply::Multi(x) && b@ == x,
    }
}

fn did_reply_exec(did: u16, base_rpm: u16) -> (r: SimReplyOut)
    requires
        base_rpm <= 0x3FFF,
    ensures
        reply_out_matches(r, did_reply(did, base_rpm)),
{
    let rpm_raw: u16 = base_rpm * 4;
    if did == 0x0100 {
        let v: Vec<u8> = vec![0x05, 0x62, 0x01, 0x00, (rpm_raw / 256) as u8, (rpm_raw % 256) as u8, 0xAA, 0xAA];
        proof {
            assert(v@ =~= reply_bytes(did_reply(did, base_rpm)));
        }
        return SimReplyOut::Frame(v);
    }
    if did == 0x0105 {
        let v: Vec<u8> = vec![0x4, 0x62, 0x1, 0x5, 0x80, 0xaa, 0xaa, 0xaa];
        proof {
            assert(v@ =~= reply_bytes(did_reply(did, base_rpm)));
        }
        return SimReplyOut::Frame(v);
    }
    if did == 0x200B {
        let v: Vec<u8> = vec![0x5, 0x62, 0x20, 0xb, 0xc, 0x80, 0xaa, 0xaa];
        proof {
            assert(v@ =~= reply_bytes(did_reply(did, base_rpm)));
        }
        return SimReplyOut::Frame(v);
    }
    if did == 0x2010 {
        let v: Vec<u8> = vec![0x5, 0x62, 0x20, 0x10, 0x4, 0x10, 0xaa, 0xaa];
        proof {
            assert(v@ =~= reply_bytes(did_reply(did, base_rpm)));
        }
        return SimReplyOut::Frame(v);
    }
    if did == 0x2021 {
        let v: Vec<u8> = vec![0x5, 0x62, 0x20, 0x21, 0x2, 0xa, 0xaa, 0xaa];
        proof {
            assert(v@ =~= reply_bytes(did_reply(did, base_rpm)));
        }
        return SimReplyOut::Frame(v);
    }
    if did == 0x2022 {
        let v: Vec<u8> = vec![0x5, 0x62, 0x20, 0x22, 0x1, 0xe5, 0xaa, 0xaa];
        proof {
            assert(v@ =~= reply_bytes(did_reply(did, base_rpm)));
        }
        return SimReplyOut::Frame(v);
    }
    if did == 0x2023 {
        let v: Vec<u8> = vec![0x5, 0x62, 0x20, 0x23, 0x1, 0xd4, 0xaa, 0xaa];
        proof {
            assert(v@ =~= reply_bytes(did_reply(did, base_rpm)));
        }
        return SimReplyOut::Frame(v);
    }
    if did == 0x2024 {
        let v: Vec<u8> = vec![0x5, 0x62, 0x20, 0x24, 0x2, 0xd, 0xaa, 0xaa];
        proof {
            assert(v@ =~= reply_bytes(did_reply(did, base_rpm)));
        }
        return SimReplyOut::Frame(v);
    }
    if did == 0x2001 {
        let v: Vec<u8> = vec![0x4, 0x62, 0x20, 0x1, 0x78, 0xaa, 0xaa, 0xaa];
        proof {
            assert(v@ =~= reply_bytes(did_reply(did, base_rpm)));
        }
        return SimReplyOut::Frame(v);
    }
    if did == 0x2002 {
        let v: Vec<u8> = vec![0x5, 0x62, 0x20, 0x2, 0x0, 0x10, 0xaa, 0xaa];
        proof {
            assert(v@ =~= reply_bytes(did_reply(did, base_rpm)));
        }
        return SimReplyOut::Frame(v);
    }
    if did == 0x2003 {
        let v: Vec<u8> = vec![0x05, 0x62, 0x20, 0x03, (base_rpm / 256) as u8, (base_rpm % 256) as u8, 0xAA, 0xAA];
        proof {
            assert(v@ =~= reply_bytes(did_reply(did, base_rpm)));
        }
        return SimReplyOut::Frame(v);
    }
    if did == 0x2050 {
        let v: Vec<u8> = vec![0x5, 0x62, 0x20, 0x50, 0x9, 0x92, 0xaa, 0xaa];
        proof {
            assert(v@ =~= reply_bytes(did_reply(did, base_rpm)));
        }
        return SimReplyOut::Frame(v);
    }
    if did == 0x2051 {
        let v: Vec<u8> = vec![0x4, 0x62, 0x20, 0x51, 0x8e, 0xaa, 0xaa, 0xaa];
        proof {
            assert(v@ =~= reply_bytes(did_reply(did, base_rpm)));
        }
        return SimReplyOut::Frame(v);
    }
    if did == 0xF187 {
        let v: Vec<u8> = vec![0x7, 0x62, 0xf1, 0x87, 0x36, 0x34, 0x36, 0x31];
        proof {
            assert(v@ =~= reply_bytes(did_reply(did, base_rpm)));
        }
        return SimReplyOut::Frame(v);
    }
    if did == 0xF188 {
        let v: Vec<u8> = vec![0x7, 0x62, 0xf1, 0x88, 0x10, 0x37, 0x38, 0x66];
        proof {
            assert(v@ =~= reply_bytes(did_reply(did, base_rpm)));
        }
        return SimReplyOut::Frame(v);
    }
    if did == 0xF189 {
        let v: Vec<u8> = vec![0x7, 0x62, 0xf1, 0x89, 0x0, 0x24, 0x48, 0x33];
        proof {
            assert(v@ =~= reply_bytes(did_reply(did, base_rpm)));
        }
        return SimReplyOut::Frame(v);
    }
    if did == 0xF190 {
        let v: Vec<u8> = vec![0x7, 0x62, 0xf1, 0x90, 0x57, 0x44, 0x42, 0x32];
        proof {
            assert(v@ =~= reply_bytes(did_reply(did, base_rpm)));
        }
        return SimReplyOut::Frame(v);
    }
    if did == 0xF1A0 {
        let v: Vec<u8> = vec![0x7, 0x62, 0xf1, 0xa0, 0x57, 0x44, 0x42, 0x32];
        proof {
            assert(v@ =~= reply_bytes(did_reply(did, base_rpm)));
        }
        return SimReplyOut::Frame(v);
    }
    if did == 0xF191 {
        let v: Vec<u8> = vec![0x7, 0x62, 0xf1, 0x91, 0x0, 0x1, 0x53, 0x54];
        proof {
            assert(v@ =~= reply_bytes(did_reply(did, base_rpm)));
        }
        return SimReplyOut::Frame(v);
    }
    if did == 0xF192 {
        let v: Vec<u8> = vec![0x62, 0xf1, 0x92, 0x30, 0x32, 0x38, 0x31, 0x30, 0x31, 0x32, 0x32, 0x32, 0x34];
        proof {
            assert(v@ =~= reply_bytes(did_reply(did, base_rpm)));
        }
        return SimReplyOut::Multi(v);
    }
    if did == 0xF194 {
        let v: Vec<u8> = vec![0x62, 0xf1, 0x94, 0x31, 0x30, 0x33, 0x37, 0x33, 0x37, 0x32, 0x33, 0x33, 0x32];
        proof {
            assert(v@ =~= reply_bytes(did_reply(did, base_rpm)));
        }
        return SimReplyOut::Multi(v);
    }
    if did == 0xF197 {
        let v: Vec<u8> = vec![0x7, 0x62, 0xf1, 0x97, 0x43, 0x52, 0x34, 0x20];
        proof {
            assert(v@ =~= reply_bytes(did_reply(did, base_rpm)));
        }
        return SimReplyOut::Frame(v);
    }
    if did == 0x2030 {
        let v: Vec<u8> = vec![0x7, 0x62, 0x20, 0x30, 0x37, 0x42, 0x38, 0x48];
        proof {
            assert(v@ =~= reply_bytes(did_reply(did, base_rpm)));
        }
        return SimReplyOut::Frame(v);
    }
    if did == 0x2031 {
        let v: Vec<u8> = vec![0x7, 0x62, 0x20, 0x31, 0x41, 0x38, 0x42, 0x31];
        proof {
            assert(v@ =~= reply_bytes(did_reply(did, base_rpm)));
        }
        return SimReplyOut::Frame(v);
    }
    if did == 0x2032 {
        let v: Vec<u8> = vec![0x7, 0x62, 0x20, 0x32, 0x39, 0x4b, 0x34, 0x4d];
        proof {
            assert(v@ =~= reply_bytes(did_reply(did, base_rpm)));
        }
        return SimReplyOut::Frame(v);
    }
    if did == 0x2033 {
        let v: Vec<u8> = vec![0x7, 0x62, 0x20, 0x33, 0x35, 0x4a, 0x37, 0x54];
        proof {
            assert(v@ =~= reply_bytes(did_reply(did, base_rpm)));
        }
        return SimReplyOut::Frame(v);
    }
    if did == 0x0320 {
        let v: Vec<u8> = vec![0x4, 0x62, 0x3, 0x20, 0x1, 0xaa, 0xaa, 0xaa];
        proof {
            assert(v@ =~= reply_bytes(did_reply(did, base_rpm)));
        }
        return SimReplyOut::Frame(v);
    }
    if did == 0x0240 {
        let v: Vec<u8> = vec![0x5, 0x62, 0x2, 0x40, 0x1, 0x90, 0xaa, 0xaa];
        proof {
            assert(v@ =~= reply_bytes(did_reply(did, base_rpm)));
        }
        return SimReplyOut::Frame(v);
    }
    if did == 0x0110 {
        let v: Vec<u8> = vec![0x5, 0x62, 0x1, 0x10, 0x0, 0xfa, 0xaa, 0xaa];
        proof {
            assert(v@ =~= reply_bytes(did_reply(did, base_rpm)));
        }
        return SimReplyOut::Frame(v);
    }
    if did == 0x0201 {
        let v: Vec<u8> = vec![0x4, 0x62, 0x2, 0x1, 0x1, 0xaa, 0xaa, 0xaa];
        proof {
            assert(v@ =~= reply_bytes(did_reply(did, base_rpm)));
        }
        return SimReplyOut::Frame(v);
    }
    if did == 0x0205 {
        let v: Vec<u8> = vec![0x4, 0x62, 0x2, 0x5, 0x1, 0xaa, 0xaa, 0xaa];
        proof {
            assert(v@ =~= reply_bytes(did_reply(did, base_rpm)));
        }
        return SimReplyOut::Frame(v);
    }
    if did == 0x0310 {
        let v: Vec<u8> = vec![0x4, 0x62, 0x3, 0x10, 0x1, 0xaa, 0xaa, 0xaa];
        proof {
            assert(v@ =~= reply_bytes(did_reply(did, base_rpm)));
        }
        return SimReplyOut::Frame(v);
    }
    let v: Vec<u8> = vec![0x03, 0x7F, 0x22, 0x31];
    proof {
        assert(v@ =~= reply_bytes(did_reply(did, base_rpm)));
    }
    SimReplyOut::Frame(v)
}

fn frame_bytes(b: &[u8]) -> (r: Vec<u8>)
    ensures
        r@ == b@,
{
    let mut v: Vec<u8> = Vec::with_capacity(b.len());
    let mut i: usize = 0;
    while i < b.len()
        invariant
            i <= b@.len(),
            v@ == b@.take(i as int),
        decreases b@.len() - i,
    {
        v.push(b[i]);
        proof {
            assert(b@.take(i + 1) =~= b@.take(i as int).push(b@[i as int]));
        }
        i = i + 1;
    }
    proof {
        assert(b@.take(i as int) =~= b@);
    }
    v
}

impl EcuSimulator {
    /// A fresh simulator: DTC stored, no transfer in progress, no fault injection.
    pub fn new() -> (r: Self)
        ensures
            r@ == (SimState {
                dtc_cleared: false,
                sid: 0x2E,
                bsc: 0,
                did: 0,
                expected_cfs: 1,
                received_cfs: 0,
                pending: Seq::empty(),
                failing: Seq::empty(),
            }),
    {
        let r = EcuSimulator {
            dtc_cleared: false,
            last_multi_frame_sid: 0x2E,
            last_multi_frame_bsc: 0,
            last_multi_frame_did: 0,
            expected_cfs: 1,
            received_cfs: 0,
            pending_cfs: Vec::new(),
            failing_services: Vec::new(),
        };
        proof {
            assert(r@.pending =~= Seq::<CanFrameView>::empty());
        }
        r
    }

    /// A fresh simulator that answers every request for the listed services with
    /// RequestOutOfRange (`7F <sid> 31`).
    pub fn with_failing_services(sids: &[u8]) -> (r: Self)
        ensures
            r@ == (SimState {
                dtc_cleared: false,
                sid: 0x2E,
                bsc: 0,
                did: 0,
                expected_cfs: 1,
                received_cfs: 0,
                pending: Seq::empty(),
                failing: sids@,
            }),
    {
        let mut r = Self::new();
        r.failing_services = frame_bytes(sids);
        r
    }

    fn is_failing(&self, sid: u8) -> (r: bool)
        ensures
            r == failing(self@, sid),
    {
        let mut i: usize = 0;
        while i < self.failing_services.len()
            invariant
                i <= self.failing_services@.len(),
                forall|k: int| 0 <= k < i ==> self.failing_services@[k] != sid,
            decreases self.failing_services@.len() - i,
        {
            if self.failing_services[i] == sid {
                proof {
                    assert(self@.failing[i as int] == sid);
                }
                return true;
            }
            i = i + 1;
        }
        false
    }

    fn transfer_reply_exec(&self, p: &[u8]) -> (r: SimReplyOut)
        ensures
            reply_out_matches(r, transfer_reply(self@, p@)),
    {
        let sid = self.last_multi_frame_sid;
        let v: Vec<u8> = if self.is_failing(sid) {
            vec![0x03, 0x7F, sid, 0x31]
        } else if sid == 0x3D {
            vec![0x02, 0x7D, 0x24, 0xAA, 0xAA, 0xAA, 0xAA, 0xAA]
        } else if sid == 0x23 {
            let n: usize = if p.len() >= 3 {
                (p[1] as usize) * 256 + (p[2] as usize)
            } else {
                0
            };
            if n == 0 || n > 6 {
                vec![0x03, 0x7F, 0x23, 0x31]
            } else {
                let mut r: Vec<u8> = vec![(1 + n) as u8, 0x63];
                let mut k: usize = 0;
                while k < n
                    invariant
                        k <= n <= 6,
                        r@ == seq![(1 + n) as u8, 0x63u8] + Seq::new(k as nat, |i: int| 0u8),
                    decreases n - k,
                {
                    r.push(0);
                    proof {
                        assert(seq![(1 + n) as u8, 0x63u8] + Seq::new((k + 1) as nat, |i: int| 0u8)
                            =~= (seq![(1 + n) as u8, 0x63u8] + Seq::new(k as nat, |i: int| 0u8)).push(0u8));
                    }
                    k = k + 1;
                }
                r
            }
        } else if sid == 0x34 {
            vec![0x04, 0x74, 0x20, 0x0F, 0xFF]
        } else if sid == 0x36 {
            vec![0x02, 0x76, self.last_multi_frame_bsc]
        } else if sid == 0x2E {
            vec![0x03, 0x6E, (self.last_multi_frame_did / 256) as u8, (self.last_multi_frame_did % 256) as u8]
        } else {
            vec![0x03, 0x7F, sid, 0x11]
        };
        proof {
            assert(v@ =~= reply_bytes(transfer_reply(self@, p@)));
        }
        SimReplyOut::Frame(v)
    }

    fn service_reply_exec(&self, service: u8, p: &[u8], base_rpm: u16) -> (r: SimReplyOut)
        requires
            base_rpm <= 0x3FFF,
        ensures
            reply_out_matches(r, service_reply(self@, service, p@, base_rpm)),
    {
        let sub1: u8 = if p.len() > 2 {
            p[2]
        } else {
            1
        };
        if service == 0x22 {
            if p.len() < 4 {
                return SimReplyOut::Silent;
            }
            return did_reply_exec((p[2] as u16) * 256 + (p[3] as u16), base_rpm);
        }
        if service == 0x3E && p.len() > 2 && p[2] >= 0x80 {
            return SimReplyOut::Silent;
        }
        let v: Vec<u8> = if service == 0x10 {
            vec![0x06, 0x50, sub1, 0x00, 0x32, 0x01, 0xF4]
        } else if service == 0x11 {
            vec![0x02, 0x51, sub1]
        } else if service == 0x27 {
            if sub1 % 2 == 1 {
                vec![0x06, 0x67, sub1, 0x12, 0x34, 0x56, 0x78]
            } else {
                vec![0x02, 0x67, sub1]
            }
        } else if service == 0x3E {
            vec![0x02, 0x7E, 0x00]
        } else if service == 0x37 {
            vec![0x01, 0x77]
        } else if service == 0x28 {
            vec![0x02, 0x68, sub1]
        } else if service == 0x85 {
            vec![0x02, 0xC5, if p.len() > 2 { p[2] } else { 2 }]
        } else if service == 0x34 {
            vec![0x04, 0x74, 0x20, 0x0F, 0xFF]
        } else if service == 0x19 {
            if self.dtc_cleared {
                vec![0x02, 0x59, 0x02]
            } else {
                vec![0x06, 0x59, 0x02, 0x2F, 0x01, 0x00, 0x28]
            }
        } else if service == 0x14 {
            vec![0x01, 0x54]
        } else if service == 0x2E {
            if p.len() >= 4 {
                vec![0x03, 0x6E, p[2], p[3]]
            } else {
                vec![0x03, 0x7F, 0x2E, 0x13]
            }
        } else if service == 0x31 {
            if p.len() >= 5 {
                vec![0x05, 0x71, p[2], p[3], p[4], 0x00]
            } else {
                vec![0x03, 0x7F, 0x31, 0x13]
            }
        } else if service == 0x3D {
            vec![0x02, 0x7D, 0x24]
        } else if service == 0x23 {
            vec![0x04, 0x63, 0x00, 0x00, 0x00]
        } else {
            vec![0x03, 0x7F, service, 0x11]
        };
        proof {
            assert(v@ =~= reply_bytes(service_reply(self@, service, p@, base_rpm)));
        }
        SimReplyOut::Frame(v)
    }

    fn multi_frame_reply(&mut self, rid: u16, m: &[u8]) -> (r: CanFrame)
        ensures
            r@ == data_frame(rid as u32, false, first_frame_bytes(m@)),
            final(self)@ == (SimState { pending: multi_frame_rest(rid, m@), ..old(self)@ }),
    {
        let len: usize = if m.len() < 0xFFF {
            m.len()
        } else {
            0xFFF
        };
        let k: usize = if len < 6 {
            len
        } else {
            6
        };
        let mut ff: Vec<u8> = vec![(0x10 + len / 256) as u8, (len % 256) as u8];
        let mut i: usize = 0;
        while i < k
            invariant
                k <= len <= m@.len(),
                i <= k,
                ff@ == seq![(0x10 + len / 256) as u8, (len % 256) as u8] + m@.take(i as int),
            decreases k - i,
        {
            ff.push(m[i]);
            proof {
                assert(m@.take(i + 1) =~= m@.take(i as int).push(m@[i as int]));
            }
            i = i + 1;
        }
        let mut cfs: Vec<CanFrame> = Vec::new();
        let mut pos: usize = k;
        let mut sn: u8 = 1;
        let ghost all = consecutive_frames(rid, m@.subrange(k as int, len as int), 1);
        while pos < len
            invariant
                k <= pos <= len <= m@.len(),
                sn < 16,
                cfs@.map_values(|f: CanFrame| f@) + consecutive_frames(
                    rid,
                    m@.subrange(pos as int, len as int),
                    sn,
                ) == all,
            decreases len - pos,
        {
            let n: usize = if len - pos < 7 {
                len - pos
            } else {
                7
            };
            let mut cf: Vec<u8> = vec![(0x20 + sn % 16) as u8];
            let mut j: usize = 0;
            while j < n
                invariant
                    pos + n <= len <= m@.len(),
                    j <= n,
                    cf@ == seq![(0x20 + sn % 16) as u8] + m@.subrange(pos as int, pos + j),
                decreases n - j,
            {
                cf.push(m[pos + j]);
                proof {
                    assert(m@.subrange(pos as int, pos + j + 1) =~= m@.subrange(pos as int, pos + j).push(
                        m@[pos + j],
                    ));
                }
                j = j + 1;
            }
            while cf.len() < 8
                invariant
                    cf@.len() <= 8,
                    cf@.len() >= 1 + n,
                    cf@ == seq![(0x20 + sn % 16) as u8] + m@.subrange(pos as int, pos + n) + Seq::new(
                        (cf@.len() - 1 - n) as nat,
                        |i: int| 0xAAu8,
                    ),
                decreases 8 - cf@.len(),
            {
                let ghost before = cf@;
                cf.push(0xAA);
                proof {
                    assert(cf@ =~= seq![(0x20 + sn % 16) as u8] + m@.subrange(pos as int, pos + n)
                        + Seq::new((cf@.len() - 1 - n) as nat, |i: int| 0xAAu8));
                }
            }
            let ghost rest = m@.subrange(pos as int, len as int);
            proof {
                assert(rest.take(n as int) =~= m@.subrange(pos as int, pos + n));
                assert(rest.skip(n as int) =~= m@.subrange(pos + n, len as int));
                assert(cf@ =~= seq![(0x20 + sn % 16) as u8] + rest.take(n as int) + Seq::new(
                    (7 - n) as nat,
                    |i: int| 0xAAu8,
                ));
            }
            let frame = CanFrame::new_standard(rid, cf.as_slice());
            let ghost before = cfs@.map_values(|f: CanFrame| f@);
            cfs.push(frame);
            proof {
                assert(cfs@.map_values(|f: CanFrame| f@) =~= before.push(frame@));
                assert(before.push(frame@) + consecutive_frames(rid, rest.skip(n as int), ((sn + 1) % 256 % 16) as u8)
                    =~= before + (seq![frame@] + consecutive_frames(rid, rest.skip(n as int), ((sn + 1) % 256 % 16) as u8)));
            }
            sn = (sn + 1) % 16;
            pos = pos + n;
        }
        self.pending_cfs = cfs;
        proof {
            assert(m@.subrange(pos as int, len as int) =~= Seq::<u8>::empty());
        }
        CanFrame::new_standard(rid, ff.as_slice())
    }
}

impl EcuSimulator {
    /// Answers one request frame with arbitration ID `req_id` and data `payload`;
    /// `base_rpm` is the simulated engine speed. Updates the transfer, DTC and
    /// multi-frame state as the request implies.
    pub fn generate_telemetry_frame(&mut self, req_id: u32, payload: &[u8], base_rpm: u16) -> (r:
        Option<CanFrame>)
        requires
            base_rpm <= 0x3FFF,
            !(payload@.len() == 1 && payload@[0] / 16 == 1),
        ensures
            (final(self)@, match r {
                Some(f) => Some(f@),
                None => None,
            }) == sim_answer(old(self)@, req_id, payload@, base_rpm),
    {
        let rid: u16 = if req_id == 0x7DF {
            0x7E8
        } else if 0x700 <= req_id && req_id <= 0x7EF {
            (req_id + 8) as u16
        } else {
            0x7E8
        };
        if payload.len() == 0 {
            return None;
        }
        let pci_type = payload[0] / 16;
        let reply: SimReplyOut;
        if pci_type == 1 {
            let total: usize = ((payload[0] % 16) as usize) * 256 + (payload[1] as usize);
            let needed: usize = if total > 6 {
                (total - 6 + 6) / 7
            } else {
                1
            };
            self.expected_cfs = needed as u32;
            self.received_cfs = 0;
            if payload.len() >= 3 {
                self.last_multi_frame_sid = payload[2];
            }
            if payload.len() >= 5 && payload[2] == 0x2E {
                self.last_multi_frame_did = (payload[3] as u16) * 256 + (payload[4] as u16);
            }
            if payload.len() >= 4 && payload[2] == 0x36 {
                self.last_multi_frame_bsc = payload[3];
            }
            reply = SimReplyOut::Frame(vec![0x30, 0x00, 0x00, 0xAA, 0xAA, 0xAA, 0xAA, 0xAA]);
            proof {
                assert(reply_out_matches(reply, sim_step(old(self)@, payload@, base_rpm).1));
            }
        } else if pci_type == 2 {
            let received = self.received_cfs.wrapping_add(1);
            self.received_cfs = received;
            if received < self.expected_cfs {
                reply = SimReplyOut::Silent;
            } else {
                reply = self.transfer_reply_exec(payload);
            }
        } else if pci_type == 0 && payload.len() <= 1 {
            return None;
        } else {
            let service = if pci_type == 0 {
                payload[1]
            } else {
                payload[0]
            };
            if self.is_failing(service) {
                reply = SimReplyOut::Frame(vec![0x03, 0x7F, service, 0x31]);
                proof {
                    assert(reply_out_matches(reply, sim_step(old(self)@, payload@, base_rpm).1));
                }
            } else {
                reply = self.service_reply_exec(service, payload, base_rpm);
                if service == 0x14 {
                    self.dtc_cleared = true;
                }
            }
        }
        proof {
            assert(self@ == sim_step(old(self)@, payload@, base_rpm).0);
            assert(reply_out_matches(reply, sim_step(old(self)@, payload@, base_rpm).1));
        }
        match reply {
            SimReplyOut::Silent => None,
            SimReplyOut::Frame(b) => Some(CanFrame::new_standard(rid, b.as_slice())),
            SimReplyOut::Multi(m) => Some(self.multi_frame_reply(rid, m.as_slice())),
        }
    }

    /// Whether a request frame is an ISO-TP flow control frame (PCI type 3).
    pub fn is_flow_control(data: &[u8]) -> (r: bool)
        ensures
            r == (data@.len() > 0 && data@[0] / 16 == 3),
    {
        data.len() > 0 && data[0] / 16 == 3
    }

    /// Releases the parked consecutive frames of a multi-frame reply, in order.
    pub fn take_pending(&mut self) -> (r: Vec<CanFrame>)
        ensures
            r@.map_values(|f: CanFrame| f@) == old(self)@.pending,
            final(self)@ == (SimState { pending: Seq::empty(), ..old(self)@ }),
    {
        let mut out: Vec<CanFrame> = Vec::new();
        std::mem::swap(&mut out, &mut self.pending_cfs);
        proof {
            assert(self@.pending =~= Seq::<CanFrameView>::empty());
        }
        out
    }
}

/// The payload bytes the consecutive frames carry: each frame's data after its PCI byte.
pub open spec fn consecutive_payload(frames: Seq<CanFrameView>) -> Seq<u8>
    decreases frames.len(),
{
    if frames.len() == 0 {
        Seq::empty()
    } else {
        frames[0].data.skip(1) + consecutive_payload(frames.drop_first())
    }
}

/// What an ISO-TP receiver reassembles from a first frame and its consecutive frames:
/// the length the first frame announces, taken from the first frame's data bytes
/// followed by those of the consecutive frames.
pub open spec fn reassembled(first: Seq<u8>, frames: Seq<CanFrameView>) -> Seq<u8> {
    let len = (first[0] % 16) as nat * 256 + first[1] as nat;
    (first.skip(2) + consecutive_payload(frames)).take(len as int)
}

/// The first consecutive frame of `rest` and what follows it.
proof fn lemma_consecutive_unfold(rid: u16, rest: Seq<u8>, sn: u8)
    requires
        rest.len() > 0,
    ensures
        ({
            let n: int = if rest.len() < 7 { rest.len() as int } else { 7 };
            let cf = seq![(0x20 + sn % 16) as u8] + rest.take(n) + Seq::new((7 - n) as nat, |i: int| 0xAAu8);
            &&& consecutive_frames(rid, rest, sn)[0].data == cf
            &&& cf.len() == 8
            &&& consecutive_frames(rid, rest, sn).drop_first() == consecutive_frames(rid, rest.skip(n), ((sn + 1) % 256 % 16) as u8)
        }),
{
    let n: int = if rest.len() < 7 { rest.len() as int } else { 7 };
    let cf = seq![(0x20 + sn % 16) as u8] + rest.take(n) + Seq::new((7 - n) as nat, |i: int| 0xAAu8);
    assert(cf.len() == 8);
    assert(data_frame(rid as u32, false, cf).data =~= cf);
    let tail = consecutive_frames(rid, rest.skip(n), ((sn + 1) % 256 % 16) as u8);
    assert((seq![data_frame(rid as u32, false, cf)] + tail).drop_first() =~= tail);
}

#[verifier::spinoff_prover]
proof fn lemma_consecutive_payload(rid: u16, rest: Seq<u8>, sn: u8)
    ensures
        consecutive_payload(consecutive_frames(rid, rest, sn)).len() >= rest.len(),
        consecutive_payload(consecutive_frames(rid, rest, sn)).take(rest.len() as int) == rest,
    decreases rest.len(),
{
    if rest.len() > 0 {
        let n: int = if rest.len() < 7 { rest.len() as int } else { 7 };
        let next = ((sn + 1) % 256 % 16) as u8;
        lemma_consecutive_unfold(rid, rest, sn);
        lemma_consecutive_payload(rid, rest.skip(n), next);
        let all = consecutive_frames(rid, rest, sn);
        let cf = all[0].data;
        let tp = consecutive_payload(consecutive_frames(rid, rest.skip(n), next));
        let p = consecutive_payload(all);
        assert(p == cf.skip(1) + tp);
        assert(p.take(rest.len() as int) =~= rest) by {
            assert forall|i: int| 0 <= i < rest.len() implies p[i] == rest[i] by {
                if i < n {
                    assert(p[i] == cf[i + 1]);
                } else {
                    assert(p[i] == tp[i - 7]);
                    assert(tp.take(rest.skip(n).len() as int)[i - 7] == rest.skip(n)[i - 7]);
                }
            }
        }
    }
}

proof fn lemma_sequence_step(sn: u8, k: int)
    requires
        k >= 1,
    ensures
        ((((sn + 1) % 256 % 16) as u8) + (k - 1)) % 16 == (sn + k) % 16,
{
    let a = (sn + 1) % 256;
    assert(a % 16 == (sn + 1) % 16) by {
        if sn == 255 {
            assert(a == 0);
        } else {
            assert(a == sn + 1);
        }
    }
    assert(((a % 16) + (k - 1)) % 16 == ((sn + 1) + (k - 1)) % 16) by (nonlinear_arith)
        requires
            a % 16 == (sn + 1) % 16,
            k >= 1,
    ;
}

#[verifier::spinoff_prover]
proof fn lemma_consecutive_shape(rid: u16, rest: Seq<u8>, sn: u8)
    ensures
        forall|k: int| 0 <= k < consecutive_frames(rid, rest, sn).len() ==> {
            let f = #[trigger] consecutive_frames(rid, rest, sn)[k];
            &&& f.data.len() == 8
            &&& f.data[0] == (0x20 + (sn + k) % 16) as u8
        },
    decreases rest.len(),
{
    if rest.len() > 0 {
        let n: int = if rest.len() < 7 { rest.len() as int } else { 7 };
        let next = ((sn + 1) % 256 % 16) as u8;
        lemma_consecutive_unfold(rid, rest, sn);
        lemma_consecutive_shape(rid, rest.skip(n), next);
        let all = consecutive_frames(rid, rest, sn);
        let tail = consecutive_frames(rid, rest.skip(n), next);
        assert forall|k: int| 0 <= k < all.len() implies {
            let f = #[trigger] all[k];
            &&& f.data.len() == 8
            &&& f.data[0] == (0x20 + (sn + k) % 16) as u8
        } by {
            if k > 0 {
                assert(all[k] == all.drop_first()[k - 1]);
                assert(all[k] == tail[k - 1]);
                lemma_sequence_step(sn, k);
            }
        }
    }
}

/// ISO-TP segmentation of a multi-frame reply is undone by reassembly: the first frame
/// and the parked consecutive frames give back the reply (up to the 4095 bytes a first
/// frame can announce), and the consecutive frames are full 8-byte frames numbered
/// 1, 2, ... modulo 16.
pub proof fn lemma_multi_frame_reassembles(rid: u16, m: Seq<u8>)
    ensures
        reassembled(data_frame(rid as u32, false, first_frame_bytes(m)).data, multi_frame_rest(rid, m))
            == m.take(announced_len(m) as int),
        forall|k: int| 0 <= k < multi_frame_rest(rid, m).len() ==> {
            let f = #[trigger] multi_frame_rest(rid, m)[k];
            &&& f.data.len() == 8
            &&& f.data[0] == (0x20 + (1 + k) % 16) as u8
        },
{
    let len = announced_len(m);
    let k: int = if len < 6 { len as int } else { 6 };
    let ff = first_frame_bytes(m);
    assert(ff.len() == 2 + k);
    assert(data_frame(rid as u32, false, ff).data =~= ff);
    let rest = m.subrange(k, len as int);
    lemma_consecutive_payload(rid, rest, 1);
    lemma_consecutive_shape(rid, rest, 1);
    let cp = consecutive_payload(multi_frame_rest(rid, m));
    assert((ff[0] % 16) as nat * 256 + ff[1] as nat == len) by {
        assert(len <= 0xFFF);
        assert(ff[0] == (0x10 + len / 256) as u8);
        assert(ff[1] == (len % 256) as u8);
    }
    let whole = ff.skip(2) + cp;
    assert(whole.take(len as int) =~= m.take(len as int)) by {
        assert forall|i: int| 0 <= i < len implies whole[i] == m[i] by {
            if i < k {
                assert(whole[i] == ff[i + 2]);
            } else {
                assert(whole[i] == cp[i - k]);
                assert(cp.take(rest.len() as int)[i - k] == rest[i - k]);
            }
        }
    }
}

/// Whether `p` is a single-frame request (first byte `0x0N`) for service `sid`.
pub open spec fn single_frame_request(p: Seq<u8>, sid: u8) -> bool {
    p.len() >= 2 && p[0] < 16 && p[1] == sid
}

/// Once stored trouble codes are cleared they stay cleared, whatever request comes next,
/// and no request changes which services are made to fail.
pub proof fn lemma_cleared_dtcs_stay_cleared(s: SimState, req_id: u32, p: Seq<u8>, base_rpm: u16)
    ensures
        s.dtc_cleared ==> sim_answer(s, req_id, p, base_rpm).0.dtc_cleared,
        sim_answer(s, req_id, p, base_rpm).0.failing == s.failing,
{
}

/// A ClearDiagnosticInformation (0x14) request that is not made to fail clears the stored
/// trouble codes; once they are cleared, a ReadDTCInformation (0x19) request that is not
/// made to fail is answered with an empty list: exactly `02 59 02`. Before clearing, it
/// reports the stored P0100 (`06 59 02 2F 01 00 28`).
pub proof fn lemma_clear_then_read_dtcs(
    s: SimState,
    r1: u32,
    p1: Seq<u8>,
    rpm1: u16,
    r2: u32,
    p2: Seq<u8>,
    rpm2: u16,
)
    ensures
        single_frame_request(p1, 0x14) && !failing(s, 0x14) ==> sim_answer(s, r1, p1, rpm1).0.dtc_cleared,
        s.dtc_cleared && single_frame_request(p2, 0x19) && !failing(s, 0x19) ==> sim_answer(s, r2, p2, rpm2).1
            == Some(data_frame(response_id(r2) as u32, false, seq![0x02u8, 0x59, 0x02])),
        !s.dtc_cleared && single_frame_request(p2, 0x19) && !failing(s, 0x19) ==> sim_answer(s, r2, p2, rpm2).1
            == Some(data_frame(response_id(r2) as u32, false, seq![0x06u8, 0x59, 0x02, 0x2F, 0x01, 0x00, 0x28])),
        single_frame_request(p1, 0x14) && !failing(s, 0x14) && single_frame_request(p2, 0x19) && !failing(s, 0x19)
            ==> sim_answer(sim_answer(s, r1, p1, rpm1).0, r2, p2, rpm2).1 == Some(
            data_frame(response_id(r2) as u32, false, seq![0x02u8, 0x59, 0x02]),
        ),
{
    let s1 = sim_answer(s, r1, p1, rpm1).0;
    lemma_cleared_dtcs_stay_cleared(s, r1, p1, rpm1);
    assert(failing(s1, 0x19) == failing(s, 0x19));
}

/// Every reply to a single-frame request follows UDS: a positive reply carries the
/// request's service ID plus 0x40, a negative one is 0x7F followed by the service ID.
pub proof fn lemma_replies_answer_the_service(s: SimState, p: Seq<u8>, base_rpm: u16)
    requires
        p.len() >= 2,
        p[0] < 16,
    ensures
        match sim_step(s, p, base_rpm).1 {
            SimReply::Frame(b) => b.len() >= 2 && (b[1] == p[1] + 0x40 || (b.len() >= 3 && b[1]
                == 0x7F && b[2] == p[1])),
            SimReply::Multi(m) => m.len() >= 3 && m[0] == p[1] + 0x40,
            SimReply::Silent => true,
        },
{
    if p[1] == 0x22 && p.len() >= 4 {
        lemma_did_reply_shape(be16(p[2], p[3]), base_rpm);
    }
}

/// A ReadDataByIdentifier reply names the identifier it answers (bytes after 0x62), or
/// is the negative reply RequestOutOfRange.
pub proof fn lemma_did_reply_shape(did: u16, base_rpm: u16)
    ensures
        match did_reply(did, base_rpm) {
            SimReply::Frame(b) => (b.len() >= 4 && b[1] == 0x62 && b[2] == did / 256 && b[3] == did
                % 256) || b == seq![0x03u8, 0x7F, 0x22, 0x31],
            SimReply::Multi(m) => m.len() >= 3 && m[0] == 0x62 && m[1] == did / 256 && m[2] == did % 256,
            SimReply::Silent => false,
        },
{
}

/// The engine-speed identifiers carry the simulated speed, big-endian: 0x0100 four
/// times it (the OBD scaling), 0x2003 the speed itself.
pub proof fn lemma_did_replies_carry_the_speed(did: u16, base_rpm: u16)
    requires
        base_rpm <= 0x3FFF,
    ensures
        did == 0x0100 ==> reply_bytes(did_reply(did, base_rpm))[4] * 256 + reply_bytes(
            did_reply(did, base_rpm),
        )[5] == 4 * base_rpm,
        did == 0x2003 ==> reply_bytes(did_reply(did, base_rpm))[4] * 256 + reply_bytes(
            did_reply(did, base_rpm),
        )[5] == base_rpm,
{
}

} // verus!
