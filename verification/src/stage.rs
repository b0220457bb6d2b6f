//! Guards of the stage calibration generator.

use crate::error::SterngateError;
use crate::map::{is_rom_backed, rom_backed, MapProvenance};
use crate::modpack::ModAction;
use crate::text::{hex_padded, push_hex_padded, push_str};
use vstd::prelude::*;

verus! {

/// Generator of staged calibration packages from an ECU flash dump.
pub struct StageGenerator;

/// `Debug` rendering of a provenance.
pub open spec fn provenance_text(p: MapProvenance) -> Seq<char> {
    match p {
        MapProvenance::Unverified => "Unverified"@,
        MapProvenance::Synthetic => "Synthetic"@,
        MapProvenance::Fallback => "Fallback"@,
        MapProvenance::Scanned => "Scanned"@,
    }
}

/// `bool` rendered as Rust does.
pub open spec fn bool_text(b: bool) -> Seq<char> {
    if b {
        "true"@
    } else {
        "false"@
    }
}

/// The refusal message for a map that may not become a flash patch.
pub open spec fn not_rom_backed_text(name: Seq<char>, address: u32, p: MapProvenance, backed: bool) -> Seq<char> {
    "refusing to emit flash patch for '"@ + name + "' at 0x"@ + hex_padded(address as nat, 6)
        + ": provenance "@ + provenance_text(p) + ", rom_backed="@ + bool_text(backed)
        + " (map was not located in this ROM)"@
}

impl StageGenerator {
    /// A map may only become a flash patch when the detector located it in this ROM
    /// (`Scanned`) and the bytes it carries are the bytes at its address.
    pub fn require_rom_backed(name: &str, address: u32, provenance: MapProvenance, raw_bytes: &[u8], rom: &[u8]) -> (r:
        Result<(), SterngateError>)
        ensures
            provenance == MapProvenance::Scanned && is_rom_backed(address, raw_bytes@, rom@) ==> r is Ok,
            !(provenance == MapProvenance::Scanned && is_rom_backed(address, raw_bytes@, rom@)) ==> (r matches Err(
                SterngateError::PreFlightCheckFailed(m),
            ) && m@ == not_rom_backed_text(name@, address, provenance, is_rom_backed(address, raw_bytes@, rom@))),
    {
        let backed = rom_backed(address, raw_bytes, rom);
        if !provenance.is_scanned() || !backed {
            let mut m = String::new();
            push_str(&mut m, "refusing to emit flash patch for '");
            push_str(&mut m, name);
            push_str(&mut m, "' at 0x");
            push_hex_padded(&mut m, address as u64, 6);
            push_str(&mut m, ": provenance ");
            match provenance {
                MapProvenance::Unverified => push_str(&mut m, "Unverified"),
                MapProvenance::Synthetic => push_str(&mut m, "Synthetic"),
                MapProvenance::Fallback => push_str(&mut m, "Fallback"),
                MapProvenance::Scanned => push_str(&mut m, "Scanned"),
            }
            push_str(&mut m, ", rom_backed=");
            if backed {
                push_str(&mut m, "true");
            } else {
                push_str(&mut m, "false");
            }
            push_str(&mut m, " (map was not located in this ROM)");
            proof {
                assert(m@ =~= not_rom_backed_text(name@, address, provenance, backed));
            }
            return Err(SterngateError::PreFlightCheckFailed(m));
        }
        Ok(())
    }
    /// The flash patch for a recalibrated map and the rollback step that undoes it: the
    /// patch writes `patched` at `address` once `original` is found there; the rollback
    /// writes `original` back unconditionally. Both carry the map's name and provenance.
    pub fn patch_with_rollback(
        map_name: &str,
        address: u32,
        patched: Vec<u8>,
        original: Vec<u8>,
        description: &str,
        rollback_description: &str,
        provenance: MapProvenance,
    ) -> (r: (ModAction, ModAction))
        ensures
            r.0 matches ModAction::PatchFlashMap {
                map_name: n,
                address_offset: a,
                data: d,
                expected_original_data: Some(e),
                description: t,
                provenance: p,
            } && n@ == map_name@ && a == address && d@ == patched@ && e@ == original@ && t@
                == description@ && p == provenance,
            r.1 matches ModAction::PatchFlashMap {
                map_name: n,
                address_offset: a,
                data: d,
                expected_original_data: None,
                description: t,
                provenance: p,
            } && n@ == map_name@ && a == address && d@ == original@ && t@ == rollback_description@
                && p == provenance,
    {
        let mut expected: Vec<u8> = Vec::with_capacity(original.len());
        let mut i: usize = 0;
        while i < original.len()
            invariant
                i <= original@.len(),
                expected@ =~= original@.subrange(0, i as int),
            decreases original@.len() - i,
        {
            expected.push(original[i]);
            i = i + 1;
        }
        proof {
            assert(original@.subrange(0, original@.len() as int) =~= original@);
        }
        let mut name1 = String::new();
        push_str(&mut name1, map_name);
        let mut name2 = String::new();
        push_str(&mut name2, map_name);
        let mut d1 = String::new();
        push_str(&mut d1, description);
        let mut d2 = String::new();
        push_str(&mut d2, rollback_description);
        proof {
            assert(name1@ =~= map_name@);
            assert(name2@ =~= map_name@);
            assert(d1@ =~= description@);
            assert(d2@ =~= rollback_description@);
        }
        (
            ModAction::PatchFlashMap {
                map_name: name1,
                address_offset: address,
                data: patched,
                expected_original_data: Some(expected),
                description: d1,
                provenance,
            },
            ModAction::PatchFlashMap {
                map_name: name2,
                address_offset: address,
                data: original,
                expected_original_data: None,
                description: d2,
                provenance,
            },
        )
    }
}

} // verus!
