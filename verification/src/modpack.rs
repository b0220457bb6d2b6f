//! Community mod packages: classification, actions, and the integrity block of the
//! canonical payload (CRC-32, SHA-256 and Reed-Solomon parity), checked and repaired
//! before a package is used.

use crate::digest::{crc32, crc32_of, sha256, sha256_of};
use crate::fec::{
    num_blocks, parity_protects, FecStatus, ReedSolomonCodec, DEFAULT_DATA_BLOCK_LEN,
    DEFAULT_PARITY_LEN,
};
use crate::fec_single::single_error_restorable;
use crate::map::MapProvenance;
use crate::text::{
    contains_chars, hex_padded, is_infix, lower_hex_bytes, lower_hex_string, push_hex_padded, push_str, str_chars,
    to_upper, upper_of,
};
use vstd::prelude::*;

verus! {

/// Category of a community mod.
#[derive(Debug, Clone, Copy, PartialEq, Eq)]
pub enum ModCategory {
    Performance,
    Transmission,
    Comfort,
    Lighting,
    Brakes,
    Emissions,
    Retrofit,
    Diagnostics,
}

/// Display label of each mod category.
pub open spec fn mod_category_label(c: ModCategory) -> Seq<char> {
    match c {
        ModCategory::Performance => "Performance Tuning"@,
        ModCategory::Transmission => "Transmission Calibration"@,
        ModCategory::Comfort => "Vehicle Comfort"@,
        ModCategory::Lighting => "Lighting & Visibility"@,
        ModCategory::Brakes => "Brake Systems"@,
        ModCategory::Emissions => "Emissions Optimization"@,
        ModCategory::Retrofit => "Equipment Retrofit"@,
        ModCategory::Diagnostics => "Diagnostics & Fault Management"@,
    }
}

impl ModCategory {
    /// Display label.
    pub fn as_str(&self) -> (r: &'static str)
        ensures
            r@ == mod_category_label(*self),
    {
        match self {
            ModCategory::Performance => "Performance Tuning",
            ModCategory::Transmission => "Transmission Calibration",
            ModCategory::Comfort => "Vehicle Comfort",
            ModCategory::Lighting => "Lighting & Visibility",
            ModCategory::Brakes => "Brake Systems",
            ModCategory::Emissions => "Emissions Optimization",
            ModCategory::Retrofit => "Equipment Retrofit",
            ModCategory::Diagnostics => "Diagnostics & Fault Management",
        }
    }
}

/// Risk rating of a mod.
#[derive(Debug, Clone, Copy, PartialEq, Eq)]
pub enum ModRiskLevel {
    Low,
    Moderate,
    High,
}

/// Display label of each risk level.
pub open spec fn risk_label(r: ModRiskLevel) -> Seq<char> {
    match r {
        ModRiskLevel::Low => "Low (Reversible UI/Comfort toggle)"@,
        ModRiskLevel::Moderate => "Moderate (Powertrain adaptation / Variant coding)"@,
        ModRiskLevel::High => "High (Safety critical / High voltage or braking)"@,
    }
}

impl ModRiskLevel {
    /// Display label.
    pub fn as_str(&self) -> (r: &'static str)
        ensures
            r@ == risk_label(*self),
    {
        match self {
            ModRiskLevel::Low => "Low (Reversible UI/Comfort toggle)",
            ModRiskLevel::Moderate => "Moderate (Powertrain adaptation / Variant coding)",
            ModRiskLevel::High => "High (Safety critical / High voltage or braking)",
        }
    }
}

/// Author, purpose and version of a mod.
#[derive(Debug, Clone, PartialEq, Eq)]
pub struct ModMetadata {
    pub mod_id: String,
    pub name: String,
    pub version: String,
    pub author: String,
    pub description: String,
    pub category: ModCategory,
    pub risk_level: ModRiskLevel,
    pub instructions: Option<String>,
    pub created_at: String,
}

/// Vehicle and ECU fingerprint a mod may be applied to.
#[derive(Debug, Clone, PartialEq, Eq)]
pub struct ModTargetFilter {
    /// Supported chassis models (e.g. "W211"), matched against the VIN.
    pub chassis: Vec<String>,
    /// Target ECU module identifier (e.g. "EDC16").
    pub ecu_name: String,
    /// Diagnostic CAN request identifier.
    pub tx_id: u32,
    /// Diagnostic CAN response identifier.
    pub rx_id: u32,
    /// Whitelist of hardware part numbers; empty admits any.
    pub compatible_hw_ids: Vec<String>,
    /// Whitelist of software calibration versions.
    pub compatible_sw_ids: Vec<String>,
    /// Minimum battery voltage before executing, in millivolts.
    pub min_battery_mv: u32,
    /// Requires ignition on and engine off.
    pub requires_engine_off: bool,
}

/// The ASCII digits of `s`, in order.
pub open spec fn ascii_digits(s: Seq<char>) -> Seq<char>
    decreases s.len(),
{
    if s.len() == 0 {
        s
    } else if '0' <= s.last() <= '9' {
        ascii_digits(s.drop_last()).push(s.last())
    } else {
        ascii_digits(s.drop_last())
    }
}

/// A chassis entry matches an upper-cased VIN when its upper-case form occurs in it,
/// or when its three digits do (so "W211" matches "WDB2112061A...").
pub open spec fn chassis_matches(chassis: Seq<char>, vin_upper: Seq<char>) -> bool {
    let c = upper_of(chassis);
    is_infix(c, vin_upper) || (ascii_digits(c).len() == 3 && is_infix(ascii_digits(c), vin_upper))
}

fn ascii_digits_exec(s: &[char]) -> (r: Vec<char>)
    ensures
        r@ == ascii_digits(s@),
{
    let mut r: Vec<char> = Vec::new();
    let mut i: usize = 0;
    while i < s.len()
        invariant
            i <= s@.len(),
            r@ == ascii_digits(s@.subrange(0, i as int)),
        decreases s@.len() - i,
    {
        proof {
            assert(s@.subrange(0, i + 1).drop_last() =~= s@.subrange(0, i as int));
        }
        if '0' <= s[i] && s[i] <= '9' {
            r.push(s[i]);
        }
        i = i + 1;
    }
    proof {
        assert(s@.subrange(0, s@.len() as int) =~= s@);
    }
    r
}

impl ModTargetFilter {
    /// Whether the target chassis matches a VIN: always for an empty list, else when
    /// some entry matches the upper-cased VIN (`chassis_matches`).
    pub fn matches_chassis(&self, vin: &str) -> (r: bool)
        ensures
            r == (self.chassis@.len() == 0 || exists|i: int|
                0 <= i < self.chassis@.len() && #[trigger] chassis_matches(self.chassis@[i]@, upper_of(vin@))),
    {
        if self.chassis.len() == 0 {
            return true;
        }
        let vin_chars = str_chars(vin);
        let clean_vin = to_upper(vin_chars.as_slice());
        let mut i: usize = 0;
        while i < self.chassis.len()
            invariant
                i <= self.chassis@.len(),
                clean_vin@ == upper_of(vin@),
                forall|j: int| 0 <= j < i ==> !#[trigger] chassis_matches(self.chassis@[j]@, upper_of(vin@)),
            decreases self.chassis@.len() - i,
        {
            let c_chars = str_chars(self.chassis[i].as_str());
            let clean_c = to_upper(c_chars.as_slice());
            if contains_chars(clean_vin.as_slice(), clean_c.as_slice()) {
                proof {
                    assert(chassis_matches(self.chassis@[i as int]@, upper_of(vin@)));
                }
                return true;
            }
            let digits = ascii_digits_exec(clean_c.as_slice());
            if digits.len() == 3 && contains_chars(clean_vin.as_slice(), digits.as_slice()) {
                proof {
                    assert(chassis_matches(self.chassis@[i as int]@, upper_of(vin@)));
                }
                return true;
            }
            i = i + 1;
        }
        false
    }

    /// Whether a live hardware id is admitted: always for an empty whitelist, else when
    /// some whitelisted id occurs in it.
    pub fn matches_hardware(&self, live_hw_id: &str) -> (r: bool)
        ensures
            r == (self.compatible_hw_ids@.len() == 0 || exists|i: int|
                0 <= i < self.compatible_hw_ids@.len() && #[trigger] is_infix(self.compatible_hw_ids@[i]@, live_hw_id@)),
    {
        if self.compatible_hw_ids.len() == 0 {
            return true;
        }
        let live = str_chars(live_hw_id);
        let mut i: usize = 0;
        while i < self.compatible_hw_ids.len()
            invariant
                i <= self.compatible_hw_ids@.len(),
                live@ == live_hw_id@,
                forall|j: int| 0 <= j < i ==> !#[trigger] is_infix(self.compatible_hw_ids@[j]@, live_hw_id@),
            decreases self.compatible_hw_ids@.len() - i,
        {
            let hw = str_chars(self.compatible_hw_ids[i].as_str());
            if contains_chars(live.as_slice(), hw.as_slice()) {
                return true;
            }
            i = i + 1;
        }
        false
    }
}

/// One step of a mod.
#[derive(Debug, Clone, PartialEq, Eq)]
pub enum ModAction {
    /// Write a data identifier, keeping the live bits where `bitmask` has 0, after
    /// checking the expected original bytes.
    WriteDid {
        did: u16,
        data: Vec<u8>,
        bitmask: Option<Vec<u8>>,
        expected_original_data: Option<Vec<u8>>,
        description: String,
    },
    /// Run a diagnostic routine (service 0x31).
    Routine { routine_id: u16, subfunction: u8, data: Vec<u8>, description: String },
    /// Patch a calibration map in flash.
    PatchFlashMap {
        map_name: String,
        address_offset: u32,
        data: Vec<u8>,
        expected_original_data: Option<Vec<u8>>,
        description: String,
        provenance: MapProvenance,
    },
    /// Disable one trouble code in flash.
    DtcMask {
        p_code: String,
        address_offset: u32,
        original_mask: u8,
        disable_mask: u8,
        description: String,
        provenance: MapProvenance,
    },
}

/// Integrity block of a mod's canonical payload.
#[derive(Debug, Clone, PartialEq, Eq)]
pub struct ModIntegrity {
    pub payload_crc32: u32,
    pub payload_sha256: String,
    pub fec_scheme: String,
    pub fec_parity_bytes: Vec<u8>,
    pub block_size: usize,
    pub parity_size: usize,
}

/// A complete shareable community mod package.
#[derive(Debug, Clone, PartialEq, Eq)]
pub struct SterngateMod {
    pub metadata: ModMetadata,
    pub target: ModTargetFilter,
    pub actions: Vec<ModAction>,
    pub rollback_actions: Vec<ModAction>,
    pub integrity: ModIntegrity,
}

/// Result of checking a mod.
#[derive(Debug, Clone, PartialEq)]
pub struct ModValidationReport {
    pub is_valid: bool,
    pub fec_status: FecStatus,
    pub crc32_verified: bool,
    pub sha256_verified: bool,
    pub matched_vehicle: bool,
    pub compatibility_notes: Vec<String>,
    pub warning_messages: Vec<String>,
}

/// The SHA-256 of a payload as stored: lower-case hexadecimal.
pub open spec fn sha256_text(payload: Seq<u8>) -> Seq<char> {
    lower_hex_bytes(sha256_of(payload))
}

/// Whether `i` is the integrity block made for `payload`.
pub open spec fn integrity_for(i: ModIntegrity, payload: Seq<u8>) -> bool {
    &&& i.payload_crc32 == crc32_of(payload)
    &&& i.payload_sha256@ == sha256_text(payload)
    &&& i.fec_scheme@ == "ReedSolomon_GF256"@
    &&& i.block_size == DEFAULT_DATA_BLOCK_LEN
    &&& i.parity_size == DEFAULT_PARITY_LEN
    &&& parity_protects(payload, i.fec_parity_bytes@, DEFAULT_DATA_BLOCK_LEN as nat, DEFAULT_PARITY_LEN as nat)
    &&& i.fec_parity_bytes@.len() == num_blocks(payload.len(), DEFAULT_DATA_BLOCK_LEN as nat) * DEFAULT_PARITY_LEN
}

/// The warning for a CRC-32 that does not match.
pub open spec fn crc_warning(expected: u32, calculated: u32) -> Seq<char> {
    "CRC32 mismatch: expected 0x"@ + hex_padded(expected as nat, 8) + ", calculated 0x"@
        + hex_padded(calculated as nat, 8)
}

/// The warning for a SHA-256 that does not match.
pub open spec fn sha_warning(expected: Seq<char>, calculated: Seq<char>) -> Seq<char> {
    "SHA256 mismatch: expected "@ + expected + ", calculated "@ + calculated
}

/// The texts of a list of strings.
pub open spec fn texts_of(v: Seq<String>) -> Seq<Seq<char>> {
    v.map_values(|s: String| s@)
}

impl ModIntegrity {
    /// The integrity block of a canonical payload: its CRC-32 and SHA-256 and the
    /// default Reed-Solomon parity.
    pub fn for_payload(payload: &[u8]) -> (r: Self)
        requires
            num_blocks(payload@.len(), DEFAULT_DATA_BLOCK_LEN as nat) * DEFAULT_PARITY_LEN
                <= usize::MAX,
        ensures
            integrity_for(r, payload@),
    {
        let payload_crc32 = crc32(payload);
        let digest = sha256(payload);
        let payload_sha256 = lower_hex_string(digest.as_slice());
        let codec = ReedSolomonCodec::default_codec();
        let fec_parity_bytes = codec.encode(payload);
        let mut fec_scheme = String::new();
        push_str(&mut fec_scheme, "ReedSolomon_GF256");
        ModIntegrity {
            payload_crc32,
            payload_sha256,
            fec_scheme,
            fec_parity_bytes,
            block_size: DEFAULT_DATA_BLOCK_LEN,
            parity_size: DEFAULT_PARITY_LEN,
        }
    }
}

/// Checks a canonical payload against its integrity block: repairs it with the
/// Reed-Solomon parity where it can, then compares CRC-32 and SHA-256 of the result.
/// An unrepairable payload is reported invalid with the codec's reason. The payload the
/// integrity block was made for is valid as it stands, and so is, once repaired, a copy
/// of it with at most one damaged byte per Reed-Solomon block.
pub fn verify_payload(payload: &mut Vec<u8>, integrity: &ModIntegrity) -> (r: ModValidationReport)
    requires
        integrity.block_size >= 1,
        integrity.block_size + integrity.parity_size <= 255,
        num_blocks(old(payload)@.len(), integrity.block_size as nat) * integrity.parity_size
            <= usize::MAX,
    ensures
        final(payload)@.len() == old(payload)@.len(),
        !r.matched_vehicle,
        r.compatibility_notes@.len() == 0,
        r.fec_status is Intact ==> final(payload)@ == old(payload)@,
        match r.fec_status {
            FecStatus::Unrecoverable { reason } => {
                &&& !r.is_valid
                &&& !r.crc32_verified
                &&& !r.sha256_verified
                &&& texts_of(r.warning_messages@) == seq![
                    "Mod corruption unrecoverable: "@ + reason@,
                ]
            },
            _ => {
                let crc = crc32_of(final(payload)@);
                let sha = sha256_text(final(payload)@);
                &&& r.crc32_verified == (crc == integrity.payload_crc32)
                &&& r.sha256_verified == (sha == integrity.payload_sha256@)
                &&& r.is_valid == (r.crc32_verified && r.sha256_verified)
                &&& texts_of(r.warning_messages@) == (if r.crc32_verified {
                    Seq::empty()
                } else {
                    seq![crc_warning(integrity.payload_crc32, crc)]
                }) + (if r.sha256_verified {
                    Seq::empty()
                } else {
                    seq![sha_warning(integrity.payload_sha256@, sha)]
                })
            },
        },
        parity_protects(
            old(payload)@,
            integrity.fec_parity_bytes@,
            integrity.block_size as nat,
            integrity.parity_size as nat,
        ) ==> r.fec_status is Intact && final(payload)@ == old(payload)@,
        integrity_for(*integrity, old(payload)@) ==> r.is_valid && r.fec_status is Intact
            && final(payload)@ == old(payload)@,
        forall|m: Seq<u8>|
            #[trigger] integrity_for(*integrity, m) && single_error_restorable(
                old(payload)@,
                m,
                integrity.fec_parity_bytes@,
                DEFAULT_DATA_BLOCK_LEN as nat,
                DEFAULT_PARITY_LEN as nat,
            ) ==> r.is_valid && final(payload)@ == m,
{
    let codec = ReedSolomonCodec::new(integrity.block_size, integrity.parity_size);
    let fec_status = codec.decode_and_repair(payload.as_mut_slice(), integrity.fec_parity_bytes.as_slice());
    match &fec_status {
        FecStatus::Unrecoverable { reason } => {
            let mut w = String::new();
            push_str(&mut w, "Mod corruption unrecoverable: ");
            push_str(&mut w, reason.as_str());
            let mut warnings: Vec<String> = Vec::new();
            warnings.push(w);
            proof {
                assert(texts_of(warnings@) =~= seq!["Mod corruption unrecoverable: "@ + reason@]);
            }
            return ModValidationReport {
                is_valid: false,
                fec_status,
                crc32_verified: false,
                sha256_verified: false,
                matched_vehicle: false,
                compatibility_notes: Vec::new(),
                warning_messages: warnings,
            };
        },
        _ => {},
    }
    let calculated_crc = crc32(payload.as_slice());
    let crc32_verified = calculated_crc == integrity.payload_crc32;
    let digest = sha256(payload.as_slice());
    let calculated_sha = lower_hex_string(digest.as_slice());
    let sha256_verified = calculated_sha == integrity.payload_sha256;
    let mut warnings: Vec<String> = Vec::new();
    if !crc32_verified {
        let mut w = String::new();
        push_str(&mut w, "CRC32 mismatch: expected 0x");
        push_hex_padded(&mut w, integrity.payload_crc32 as u64, 8);
        push_str(&mut w, ", calculated 0x");
        push_hex_padded(&mut w, calculated_crc as u64, 8);
        warnings.push(w);
    }
    let ghost first = texts_of(warnings@);
    if !sha256_verified {
        let mut w = String::new();
        push_str(&mut w, "SHA256 mismatch: expected ");
        push_str(&mut w, integrity.payload_sha256.as_str());
        push_str(&mut w, ", calculated ");
        push_str(&mut w, calculated_sha.as_str());
        warnings.push(w);
    }
    proof {
        let crc = crc32_of(payload@);
        let sha = sha256_text(payload@);
        assert(texts_of(warnings@) =~= (if crc32_verified {
            Seq::empty()
        } else {
            seq![crc_warning(integrity.payload_crc32, crc)]
        }) + (if sha256_verified {
            Seq::empty()
        } else {
            seq![sha_warning(integrity.payload_sha256@, sha)]
        }));
    }
    ModValidationReport {
        is_valid: crc32_verified && sha256_verified,
        fec_status,
        crc32_verified,
        sha256_verified,
        matched_vehicle: false,
        compatibility_notes: Vec::new(),
        warning_messages: warnings,
    }
}

} // verus!
