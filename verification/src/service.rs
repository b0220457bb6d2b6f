//! Workshop service procedures: SBC service actions, injector IMA codes, air
//! suspension corners, and ECUs found on the bus.

use crate::text::{chars_eq, lower_of, str_chars, string_of, to_lower, to_upper, trim, trim_ws, upper_of};
use vstd::prelude::*;

verus! {

/// SBC (Sensotronic Brake Control) service-mode action.
#[derive(Debug, Clone, Copy, PartialEq, Eq)]
pub enum SbcServiceAction {
    /// Dump the accumulator, retract the pistons and lock wake-up.
    Deactivate,
    /// Recharge the accumulator and run the automated bleed check.
    Reactivate,
    /// Hydraulic bleeding procedure.
    Bleed,
}

/// Injector quantity adaptation (IMA) code of one cylinder.
#[derive(Debug, Clone, PartialEq, Eq)]
pub struct ImaClassification {
    /// Cylinder number, from 1.
    pub cylinder: u8,
    /// The calibration code, trimmed and upper-cased.
    pub code: String,
    /// Whether the code is 6 or 7 ASCII letters and digits.
    pub is_valid: bool,
    /// Format classification.
    pub format: String,
}

/// Whether `c` is an ASCII letter or digit.
pub open spec fn is_ascii_alnum(c: char) -> bool {
    ('0' <= c <= '9') || ('A' <= c <= 'Z') || ('a' <= c <= 'z')
}

/// Whether an IMA code is valid: 6 or 7 characters, all ASCII letters and digits.
pub open spec fn ima_valid(code: Seq<char>) -> bool {
    &&& (code.len() == 6 || code.len() == 7)
    &&& forall|i: int| 0 <= i < code.len() ==> is_ascii_alnum(#[trigger] code[i])
}

/// The format classification of an IMA code.
pub open spec fn ima_format(code: Seq<char>) -> Seq<char> {
    if !ima_valid(code) {
        "Invalid Format (must be 6 or 7 alphanumeric characters)"@
    } else if code.len() == 6 {
        "Bosch IMA (6-character)"@
    } else {
        "Bosch/Delphi EMA (7-character)"@
    }
}

fn all_alnum(s: &[char]) -> (r: bool)
    ensures
        r == forall|i: int| 0 <= i < s@.len() ==> is_ascii_alnum(#[trigger] s@[i]),
{
    let mut i: usize = 0;
    while i < s.len()
        invariant
            i <= s@.len(),
            forall|k: int| 0 <= k < i ==> is_ascii_alnum(#[trigger] s@[k]),
        decreases s@.len() - i,
    {
        let c = s[i];
        if !(('0' <= c && c <= '9') || ('A' <= c && c <= 'Z') || ('a' <= c && c <= 'z')) {
            return false;
        }
        i = i + 1;
    }
    true
}

impl ImaClassification {
    /// Classifies the IMA code of `cylinder`, after trimming and upper-casing it.
    pub fn new(cylinder: u8, code: &str) -> (r: Self)
        ensures
            r.cylinder == cylinder,
            r.code@ == upper_of(trim_ws(code@)),
            r.is_valid == ima_valid(r.code@),
            r.format@ == ima_format(r.code@),
    {
        let chars = str_chars(code);
        let t = trim(chars.as_slice());
        let up = to_upper(t.as_slice());
        let len = up.len();
        let alnum = all_alnum(up.as_slice());
        let is_valid = (len == 6 || len == 7) && alnum;
        let format = if !is_valid {
            string_of_str("Invalid Format (must be 6 or 7 alphanumeric characters)")
        } else if len == 6 {
            string_of_str("Bosch IMA (6-character)")
        } else {
            string_of_str("Bosch/Delphi EMA (7-character)")
        };
        ImaClassification { cylinder, code: string_of(up.as_slice()), is_valid, format }
    }
}

fn string_of_str(s: &str) -> (r: String)
    ensures
        r@ == s@,
{
    let mut r = String::new();
    crate::text::push_str(&mut r, s);
    r
}

/// Air suspension corner selection.
#[derive(Debug, Clone, Copy, PartialEq, Eq)]
pub enum SuspensionCorner {
    FrontLeft,
    FrontRight,
    RearLeft,
    RearRight,
    BothRear,
    AllCorners,
}

/// Display label of each corner selection.
pub open spec fn corner_label(c: SuspensionCorner) -> Seq<char> {
    match c {
        SuspensionCorner::FrontLeft => "Front-Left"@,
        SuspensionCorner::FrontRight => "Front-Right"@,
        SuspensionCorner::RearLeft => "Rear-Left"@,
        SuspensionCorner::RearRight => "Rear-Right"@,
        SuspensionCorner::BothRear => "Both Rear Axle"@,
        SuspensionCorner::AllCorners => "All 4 Corners"@,
    }
}

/// `s` with every underscore replaced by a hyphen.
pub open spec fn underscores_to_hyphens(s: Seq<char>) -> Seq<char> {
    s.map_values(|c: char| if c == '_' { '-' } else { c })
}

/// The corner a (lower-cased, hyphenated) name selects.
pub open spec fn corner_named(n: Seq<char>) -> Option<SuspensionCorner> {
    if n == "fl"@ || n == "front-left"@ || n == "frontleft"@ {
        Some(SuspensionCorner::FrontLeft)
    } else if n == "fr"@ || n == "front-right"@ || n == "frontright"@ {
        Some(SuspensionCorner::FrontRight)
    } else if n == "rl"@ || n == "rear-left"@ || n == "rearleft"@ {
        Some(SuspensionCorner::RearLeft)
    } else if n == "rr"@ || n == "rear-right"@ || n == "rearright"@ {
        Some(SuspensionCorner::RearRight)
    } else if n == "rear"@ || n == "both-rear"@ || n == "rear-axle"@ {
        Some(SuspensionCorner::BothRear)
    } else if n == "all"@ || n == "all-corners"@ {
        Some(SuspensionCorner::AllCorners)
    } else {
        None
    }
}

impl SuspensionCorner {
    /// Display label.
    pub fn as_str(&self) -> (r: &'static str)
        ensures
            r@ == corner_label(*self),
    {
        match self {
            SuspensionCorner::FrontLeft => "Front-Left",
            SuspensionCorner::FrontRight => "Front-Right",
            SuspensionCorner::RearLeft => "Rear-Left",
            SuspensionCorner::RearRight => "Rear-Right",
            SuspensionCorner::BothRear => "Both Rear Axle",
            SuspensionCorner::AllCorners => "All 4 Corners",
        }
    }

    /// The corner named by `s`, in any case and with `_` or `-`, if any.
    pub fn parse_str(s: &str) -> (r: Option<Self>)
        ensures
            r == corner_named(underscores_to_hyphens(lower_of(s@))),
    {
        let chars = str_chars(s);
        let lower = to_lower(chars.as_slice());
        let mut n: Vec<char> = Vec::with_capacity(lower.len());
        let mut i: usize = 0;
        while i < lower.len()
            invariant
                i <= lower@.len(),
                n@ == underscores_to_hyphens(lower@.take(i as int)),
            decreases lower@.len() - i,
        {
            let c = lower[i];
            n.push(if c == '_' { '-' } else { c });
            proof {
                assert(underscores_to_hyphens(lower@.take(i + 1)) =~= underscores_to_hyphens(
                    lower@.take(i as int),
                ).push(if c == '_' { '-' } else { c }));
            }
            i = i + 1;
        }
        proof {
            assert(lower@.take(i as int) =~= lower@);
        }
        let m = n.as_slice();
        if chars_eq(m, "fl") || chars_eq(m, "front-left") || chars_eq(m, "frontleft") {
            Some(SuspensionCorner::FrontLeft)
        } else if chars_eq(m, "fr") || chars_eq(m, "front-right") || chars_eq(m, "frontright") {
            Some(SuspensionCorner::FrontRight)
        } else if chars_eq(m, "rl") || chars_eq(m, "rear-left") || chars_eq(m, "rearleft") {
            Some(SuspensionCorner::RearLeft)
        } else if chars_eq(m, "rr") || chars_eq(m, "rear-right") || chars_eq(m, "rearright") {
            Some(SuspensionCorner::RearRight)
        } else if chars_eq(m, "rear") || chars_eq(m, "both-rear") || chars_eq(m, "rear-axle") {
            Some(SuspensionCorner::BothRear)
        } else if chars_eq(m, "all") || chars_eq(m, "all-corners") {
            Some(SuspensionCorner::AllCorners)
        } else {
            None
        }
    }
}

/// Air suspension corner actuation.
#[derive(Debug, Clone, Copy, PartialEq, Eq)]
pub enum SuspensionCornerAction {
    /// Inflate the air spring.
    Inflate,
    /// Deflate the air spring.
    Deflate,
    /// Store the zero-height calibration level.
    CalibrateZeroHeight,
}

/// An ECU found during bus-wide interrogation.
#[derive(Debug, Clone, PartialEq, Eq)]
pub struct DiscoveredEcu {
    /// Physical CAN request ID.
    pub tx_id: u32,
    /// Physical CAN response ID.
    pub rx_id: u32,
    /// Diagnostic protocol.
    pub protocol: String,
    /// OEM spare part number (DID 0xF187).
    pub part_number: Option<String>,
    /// Hardware version (DID 0xF191).
    pub hardware_version: Option<String>,
    /// Software version (DID 0xF189).
    pub software_version: Option<String>,
    /// Software calibration number (DID 0xF188).
    pub software_calibration: Option<String>,
    /// VIN stored in the module (DID 0xF190).
    pub vin: Option<String>,
    /// System name (DID 0xF197 or deduced).
    pub system_name: Option<String>,
    /// Matched ECU catalog definition.
    pub matched_catalog_name: Option<String>,
}

} // verus!
