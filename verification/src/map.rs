//! Calibration map classification and provenance.

use vstd::prelude::*;

verus! {

/// Category of a calibration map in the engine management software.
#[derive(Debug, Clone, Copy, PartialEq, Eq)]
pub enum MapCategory {
    Torque,
    Boost,
    Fueling,
    Timing,
    Emissions,
    Diagnostics,
}

/// Display label of each map category.
pub open spec fn category_label(c: MapCategory) -> Seq<char> {
    match c {
        MapCategory::Torque => "Torque & Driver Request"@,
        MapCategory::Boost => "Turbocharger & Boost Control"@,
        MapCategory::Fueling => "Fuel Delivery & Rail Pressure"@,
        MapCategory::Timing => "Injection Timing & Duration"@,
        MapCategory::Emissions => "Emissions (EGR / DPF / AdBlue)"@,
        MapCategory::Diagnostics => "Diagnostics & Fault Suppression"@,
    }
}

impl MapCategory {
    /// Display label.
    pub fn as_str(&self) -> (r: &'static str)
        ensures
            r@ == category_label(*self),
    {
        match self {
            MapCategory::Torque => "Torque & Driver Request",
            MapCategory::Boost => "Turbocharger & Boost Control",
            MapCategory::Fueling => "Fuel Delivery & Rail Pressure",
            MapCategory::Timing => "Injection Timing & Duration",
            MapCategory::Emissions => "Emissions (EGR / DPF / AdBlue)",
            MapCategory::Diagnostics => "Diagnostics & Fault Suppression",
        }
    }
}

/// Where a detected map's address and raw bytes came from. Only `Scanned` maps may be
/// turned into flash writes; every other value marks data with no proven relation to
/// the ROM it claims to describe.
#[derive(Debug, Clone, Copy, PartialEq, Eq)]
pub enum MapProvenance {
    /// Origin unknown (legacy packages). Never executable.
    Unverified,
    /// Hard-coded placeholder; never read from the ROM.
    Synthetic,
    /// A scan found nothing and a hard-coded default was substituted.
    Fallback,
    /// Raw bytes read from the ROM at the address by a pattern scan.
    Scanned,
}

impl MapProvenance {
    /// Whether this is the default, `Unverified`.
    pub fn is_unverified(&self) -> (r: bool)
        ensures
            r == (*self == MapProvenance::Unverified),
    {
        match self {
            MapProvenance::Unverified => true,
            _ => false,
        }
    }

    /// Whether the map was located in the target's own ROM.
    pub fn is_scanned(self) -> (r: bool)
        ensures
            r == (self == MapProvenance::Scanned),
    {
        match self {
            MapProvenance::Scanned => true,
            _ => false,
        }
    }
}

impl Default for MapProvenance {
    fn default() -> (r: Self)
        ensures
            r == MapProvenance::Unverified,
    {
        MapProvenance::Unverified
    }
}

/// Whether `raw` is non-empty and equals the ROM bytes at `address`.
pub open spec fn is_rom_backed(address: u32, raw: Seq<u8>, rom: Seq<u8>) -> bool {
    &&& raw.len() > 0
    &&& address + raw.len() <= rom.len()
    &&& rom.subrange(address as int, address + raw.len()) == raw
}

/// Independent evidence check for a map: true only when `raw_bytes` is non-empty and
/// equals the ROM slice at `address`; a provenance label is not trusted.
pub fn rom_backed(address: u32, raw_bytes: &[u8], rom: &[u8]) -> (r: bool)
    ensures
        r == is_rom_backed(address, raw_bytes@, rom@),
{
    if raw_bytes.len() == 0 {
        return false;
    }
    let start = address as usize;
    if start > rom.len() || rom.len() - start < raw_bytes.len() {
        return false;
    }
    let mut i: usize = 0;
    while i < raw_bytes.len()
        invariant
            i <= raw_bytes@.len(),
            start == address,
            start + raw_bytes@.len() <= rom@.len(),
            rom@.len() <= usize::MAX,
            forall|k: int| 0 <= k < i ==> rom@[start + k] == raw_bytes@[k],
        decreases raw_bytes@.len() - i,
    {
        if rom[start + i] != raw_bytes[i] {
            proof {
                assert(rom@.subrange(address as int, address + raw_bytes@.len())[i as int]
                    != raw_bytes@[i as int]);
            }
            return false;
        }
        i = i + 1;
    }
    proof {
        assert(rom@.subrange(address as int, address + raw_bytes@.len()) =~= raw_bytes@);
    }
    true
}

} // verus!
