//! Adapter state of the vehicle interfaces whose transport is outside the library:
//! DoIP gateways, SAE J2534 PassThru devices and Linux SocketCAN. The library holds
//! their state and decides each operation's outcome; the transport itself (sockets,
//! timers) runs around it.

use crate::error::SterngateError;
use crate::frame::{data_frame, CanFrame};
use crate::text::{push_hex, push_str};
use vstd::prelude::*;

verus! {

/// A DoIP (ISO 13400) gateway connection.
#[derive(Debug)]
pub struct DoIpInterface {
    remote_addr: String,
    is_connected: bool,
}

/// Whether `r` is the `DeviceNotFound` error with message `msg`.
pub open spec fn is_not_found(r: SterngateError, msg: Seq<char>) -> bool {
    r matches SterngateError::DeviceNotFound(m) && m@ == msg
}

fn not_found(msg: &str) -> (r: SterngateError)
    ensures
        is_not_found(r, msg@),
{
    let mut m = String::new();
    push_str(&mut m, msg);
    SterngateError::DeviceNotFound(m)
}

impl DoIpInterface {
    /// A disconnected interface for the gateway at `remote_addr`.
    pub fn new(remote_addr: &str) -> (r: Self)
        ensures
            r.remote_addr()@ == remote_addr@,
            !r.connected(),
    {
        let mut a = String::new();
        push_str(&mut a, remote_addr);
        DoIpInterface { remote_addr: a, is_connected: false }
    }

    /// Address of the gateway.
    pub closed spec fn remote_addr(&self) -> String {
        self.remote_addr
    }

    /// Whether a session is open.
    pub closed spec fn connected(&self) -> bool {
        self.is_connected
    }

    /// Address of the gateway.
    pub fn address(&self) -> (r: &str)
        ensures
            r@ == self.remote_addr()@,
    {
        self.remote_addr.as_str()
    }

    /// Opens the session.
    pub fn open(&mut self) -> (r: Result<(), SterngateError>)
        ensures
            r is Ok,
            final(self).connected(),
            final(self).remote_addr() == old(self).remote_addr(),
    {
        self.is_connected = true;
        Ok(())
    }

    /// Accepts a frame for transmission when the session is open.
    pub fn send(&mut self, frame: &CanFrame) -> (r: Result<(), SterngateError>)
        ensures
            *final(self) == *old(self),
            old(self).connected() ==> r is Ok,
            !old(self).connected() ==> (r matches Err(e) && is_not_found(e, "DoIP session not connected"@)),
    {
        if !self.is_connected {
            return Err(not_found("DoIP session not connected"));
        }
        Ok(())
    }

    /// The gateway's reply when the session is open: a positive session-control
    /// response from 0x7E8.
    pub fn recv(&mut self) -> (r: Result<CanFrame, SterngateError>)
        ensures
            *final(self) == *old(self),
            old(self).connected() ==> (r matches Ok(f) && f@ == data_frame(0x7E8, false, seq![0x02u8, 0x50, 0x01])),
            !old(self).connected() ==> (r matches Err(e) && is_not_found(e, "DoIP session not connected"@)),
    {
        if !self.is_connected {
            return Err(not_found("DoIP session not connected"));
        }
        let data: [u8; 3] = [0x02, 0x50, 0x01];
        proof {
            assert(data@ =~= seq![0x02u8, 0x50, 0x01]);
        }
        Ok(CanFrame::new_standard(0x7E8, &data))
    }

    /// Closes the session.
    pub fn close(&mut self) -> (r: Result<(), SterngateError>)
        ensures
            r is Ok,
            !final(self).connected(),
            final(self).remote_addr() == old(self).remote_addr(),
    {
        self.is_connected = false;
        Ok(())
    }

    /// Name of the interface.
    pub fn name(&self) -> (r: &'static str)
        ensures
            r@ == "DoIP (ISO 13400)"@,
    {
        "DoIP (ISO 13400)"
    }

    /// Whether a session is open.
    pub fn is_connected(&self) -> (r: bool)
        ensures
            r == self.connected(),
    {
        self.is_connected
    }
}

/// A SAE J2534 PassThru device.
#[derive(Debug)]
pub struct J2534Interface {
    device_name: String,
    channel_id: Option<u32>,
    is_open: bool,
}

impl J2534Interface {
    /// A closed interface for the named device.
    pub fn new(device_name: &str) -> (r: Self)
        ensures
            r.device()@ == device_name@,
            r.channel() is None,
            !r.opened(),
    {
        let mut d = String::new();
        push_str(&mut d, device_name);
        J2534Interface { device_name: d, channel_id: None, is_open: false }
    }

    /// Name of the device.
    pub closed spec fn device(&self) -> String {
        self.device_name
    }

    /// Open channel, if any.
    pub closed spec fn channel(&self) -> Option<u32> {
        self.channel_id
    }

    /// Whether the device is open.
    pub closed spec fn opened(&self) -> bool {
        self.is_open
    }

    /// Opens the device on channel 1.
    pub fn open(&mut self) -> (r: Result<(), SterngateError>)
        ensures
            r is Ok,
            final(self).opened(),
            final(self).channel() == Some(1u32),
            final(self).device() == old(self).device(),
    {
        self.channel_id = Some(1);
        self.is_open = true;
        Ok(())
    }

    /// Accepts a frame for transmission when the device is open.
    pub fn send(&mut self, frame: &CanFrame) -> (r: Result<(), SterngateError>)
        ensures
            *final(self) == *old(self),
            old(self).opened() ==> r is Ok,
            !old(self).opened() ==> (r matches Err(e) && is_not_found(e, "J2534 device not open"@)),
    {
        if !self.is_open {
            return Err(not_found("J2534 device not open"));
        }
        Ok(())
    }

    /// The device's reply when open: a negative response (0x22, 0x11) from 0x7E8.
    pub fn recv(&mut self) -> (r: Result<CanFrame, SterngateError>)
        ensures
            *final(self) == *old(self),
            old(self).opened() ==> (r matches Ok(f) && f@ == data_frame(0x7E8, false, seq![0x03u8, 0x7F, 0x22, 0x11])),
            !old(self).opened() ==> (r matches Err(e) && is_not_found(e, "J2534 device not open"@)),
    {
        if !self.is_open {
            return Err(not_found("J2534 device not open"));
        }
        let data: [u8; 4] = [0x03, 0x7F, 0x22, 0x11];
        proof {
            assert(data@ =~= seq![0x03u8, 0x7F, 0x22, 0x11]);
        }
        Ok(CanFrame::new_standard(0x7E8, &data))
    }

    /// Closes the device and its channel.
    pub fn close(&mut self) -> (r: Result<(), SterngateError>)
        ensures
            r is Ok,
            !final(self).opened(),
            final(self).channel() is None,
            final(self).device() == old(self).device(),
    {
        self.is_open = false;
        self.channel_id = None;
        Ok(())
    }

    /// Name of the device.
    pub fn name(&self) -> (r: &str)
        ensures
            r@ == self.device()@,
    {
        self.device_name.as_str()
    }

    /// Whether the device is open.
    pub fn is_connected(&self) -> (r: bool)
        ensures
            r == self.opened(),
    {
        self.is_open
    }
}

/// A Linux SocketCAN interface.
#[derive(Debug)]
pub struct SocketCanInterface {
    interface_name: String,
    is_open: bool,
}

/// Largest 29-bit CAN identifier.
pub const MAX_EXTENDED_CAN_ID: u32 = 0x1FFF_FFFF;

/// What sending a frame on SocketCAN makes of it: the identifier checked against its
/// width (the standard form takes the low 16 bits of the ID) and at most 8 data bytes.
pub open spec fn socketcan_frame_ok(f: CanFrame) -> bool {
    &&& if f.is_extended {
        f.id <= MAX_EXTENDED_CAN_ID
    } else {
        f.id % 0x1_0000 <= 0x7FF
    }
    &&& f.data@.len() <= 8
}

impl SocketCanInterface {
    /// A closed interface on the named network device.
    pub fn new(interface_name: &str) -> (r: Self)
        ensures
            r.interface()@ == interface_name@,
            !r.opened(),
    {
        let mut n = String::new();
        push_str(&mut n, interface_name);
        SocketCanInterface { interface_name: n, is_open: false }
    }

    /// Name of the network device.
    pub closed spec fn interface(&self) -> String {
        self.interface_name
    }

    /// Whether the socket is open.
    pub closed spec fn opened(&self) -> bool {
        self.is_open
    }

    /// Records whether opening the socket succeeded.
    pub fn set_open(&mut self, open: bool)
        ensures
            final(self).opened() == open,
            final(self).interface() == old(self).interface(),
    {
        self.is_open = open;
    }

    /// Name of the network device.
    pub fn name(&self) -> (r: &str)
        ensures
            r@ == self.interface()@,
    {
        self.interface_name.as_str()
    }

    /// Whether the socket is open.
    pub fn is_connected(&self) -> (r: bool)
        ensures
            r == self.opened(),
    {
        self.is_open
    }

    /// Checks a frame before it is written: `Ok` when the socket is open, the ID fits
    /// its width and the payload is at most 8 bytes.
    pub fn check_outgoing(&self, frame: &CanFrame) -> (r: Result<(), SterngateError>)
        ensures
            r is Ok <==> (self.opened() && socketcan_frame_ok(*frame)),
            !self.opened() ==> (r matches Err(SterngateError::DeviceNotFound(_))),
            self.opened() && !socketcan_frame_ok(*frame) ==> (r matches Err(SterngateError::HalError(_))),
    {
        if !self.is_open {
            let mut m = String::new();
            push_str(&mut m, "SocketCAN '");
            push_str(&mut m, self.interface_name.as_str());
            push_str(&mut m, "' is not open");
            return Err(SterngateError::DeviceNotFound(m));
        }
        if frame.is_extended {
            if frame.id > MAX_EXTENDED_CAN_ID {
                let mut m = String::new();
                push_str(&mut m, "Invalid extended CAN ID: 0x");
                push_hex(&mut m, frame.id as u64);
                return Err(SterngateError::HalError(m));
            }
        } else if (frame.id % 0x1_0000) > 0x7FF {
            let mut m = String::new();
            push_str(&mut m, "Invalid standard CAN ID: 0x");
            push_hex(&mut m, frame.id as u64);
            return Err(SterngateError::HalError(m));
        }
        if frame.data.len() > 8 {
            let mut m = String::new();
            push_str(&mut m, "Failed to build SocketCAN data frame");
            return Err(SterngateError::HalError(m));
        }
        Ok(())
    }
}

} // verus!
