//! Sterngate: verified core of an automotive diagnostic and calibration toolkit.

pub mod armor;
pub mod bytes;
pub mod cascades;
pub mod catalog;
pub mod cff;
pub mod checksum;
pub mod command;
pub mod detector;
pub mod digest;
pub mod dtc;
pub mod error;
pub mod fec;
pub mod fec_single;
pub mod flash;
pub mod frame;
pub mod garage;
pub mod hal;
pub mod gf256;
pub mod hex;
pub mod i18n;
pub mod map;
pub mod modpack;
pub mod openport_codec;
pub mod openport_stream;
pub mod profile;
pub mod service;
pub mod simulator;
pub mod stage;
pub mod text;

use vstd::prelude::*;

verus! {

} // verus!
