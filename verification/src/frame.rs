//! Classic CAN frames as exchanged with the vehicle bus.

use vstd::prelude::*;

verus! {

/// Largest payload of a classic CAN frame.
pub const CAN_MAX_PAYLOAD: usize = 8;

/// A classic CAN frame with an optional receive timestamp.
#[derive(Debug, Clone, PartialEq, Eq)]
pub struct CanFrame {
    pub id: u32,
    pub is_extended: bool,
    pub is_remote: bool,
    pub dlc: u8,
    pub data: Vec<u8>,
    pub timestamp_us: u64,
}

/// The value of a [`CanFrame`], with its payload as a sequence.
pub struct CanFrameView {
    pub id: u32,
    pub is_extended: bool,
    pub is_remote: bool,
    pub dlc: u8,
    pub data: Seq<u8>,
    pub timestamp_us: u64,
}

impl View for CanFrame {
    type V = CanFrameView;

    open spec fn view(&self) -> CanFrameView {
        CanFrameView {
            id: self.id,
            is_extended: self.is_extended,
            is_remote: self.is_remote,
            dlc: self.dlc,
            data: self.data@,
            timestamp_us: self.timestamp_us,
        }
    }
}

/// Number of payload bytes a frame keeps out of `n` offered bytes.
pub open spec fn kept_len(n: nat) -> nat {
    if n < CAN_MAX_PAYLOAD {
        n
    } else {
        CAN_MAX_PAYLOAD as nat
    }
}

/// A data frame carrying the first (at most eight) bytes of `data`, without timestamp.
pub open spec fn data_frame(id: u32, is_extended: bool, data: Seq<u8>) -> CanFrameView {
    CanFrameView {
        id,
        is_extended,
        is_remote: false,
        dlc: kept_len(data.len()) as u8,
        data: data.take(kept_len(data.len()) as int),
        timestamp_us: 0,
    }
}

fn copy_prefix(data: &[u8], n: usize) -> (r: Vec<u8>)
    requires
        n <= data@.len(),
    ensures
        r@ == data@.take(n as int),
{
    let mut r: Vec<u8> = Vec::with_capacity(n);
    let mut i: usize = 0;
    while i < n
        invariant
            n <= data@.len(),
            i <= n,
            r@ == data@.take(i as int),
        decreases n - i,
    {
        r.push(data[i]);
        proof {
            assert(data@.take((i + 1) as int) =~= data@.take(i as int).push(data@[i as int]));
        }
        i = i + 1;
    }
    r
}

impl CanFrame {
    /// A standard (11-bit) data frame; payload bytes past the eighth are dropped.
    pub fn new_standard(id: u16, data: &[u8]) -> (r: Self)
        ensures
            r@ == data_frame(id as u32, false, data@),
    {
        let len = if data.len() < CAN_MAX_PAYLOAD {
            data.len()
        } else {
            CAN_MAX_PAYLOAD
        };
        CanFrame {
            id: id as u32,
            is_extended: false,
            is_remote: false,
            dlc: len as u8,
            data: copy_prefix(data, len),
            timestamp_us: 0,
        }
    }

    /// An extended (29-bit) data frame; payload bytes past the eighth are dropped.
    pub fn new_extended(id: u32, data: &[u8]) -> (r: Self)
        ensures
            r@ == data_frame(id, true, data@),
    {
        let len = if data.len() < CAN_MAX_PAYLOAD {
            data.len()
        } else {
            CAN_MAX_PAYLOAD
        };
        CanFrame {
            id,
            is_extended: true,
            is_remote: false,
            dlc: len as u8,
            data: copy_prefix(data, len),
            timestamp_us: 0,
        }
    }

    /// The same frame stamped with `timestamp_us`.
    pub fn with_timestamp(self, timestamp_us: u64) -> (r: Self)
        ensures
            r@ == (CanFrameView { timestamp_us, ..self@ }),
    {
        let mut f = self;
        f.timestamp_us = timestamp_us;
        f
    }
}

} // verus!
