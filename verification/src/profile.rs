//! Vehicle profile module definitions: localized names and CAN identifiers.

use crate::error::SterngateError;
use crate::i18n::{language_code, Language};
use crate::text::{
    chars_eq, decimal, hex_padded, parse_fail_text, parse_int, parse_int_radix, push_decimal, push_hex_padded,
    push_parse_fail, push_str, str_chars, strip_zero_prefix, zero_prefix_end, ParseFail,
};
use crate::flash::{eq_ignore_ascii_case, eq_ignore_case_bytes};
use vstd::prelude::*;
use vstd::string::StringSliceAdditionalSpecFns;
use vstd::utf8::encode_utf8;

verus! {

/// One ECU module of a vehicle profile.
///
/// `names` maps a language code to the module's name in that language; it is
/// read front to back and the first entry for a code counts.
#[derive(Debug, Clone, PartialEq, Eq)]
pub struct ModuleDef {
    pub name: String,
    pub names: Vec<(String, String)>,
    pub tx_id: String,
    pub rx_id: String,
    pub protocol: String,
    pub seed_key_algo: Option<String>,
}

/// Index of the first entry of `names` whose key is `code`.
pub open spec fn first_key(names: Seq<(String, String)>, code: Seq<char>) -> Option<int>
    decreases names.len(),
{
    if names.len() == 0 {
        None
    } else if names[0].0@ == code {
        Some(0)
    } else {
        match first_key(names.drop_first(), code) {
            Some(i) => Some(i + 1),
            None => None,
        }
    }
}

/// The name shown in a language: its translation if `names` has one, else `name`.
pub open spec fn localized(name: Seq<char>, names: Seq<(String, String)>, code: Seq<char>) -> Seq<char> {
    match first_key(names, code) {
        Some(i) => names[i].1@,
        None => name,
    }
}

/// The CAN identifier a hexadecimal id string denotes, as `u32::from_str_radix` reads it.
pub open spec fn can_id_of(id: Seq<char>) -> Result<nat, ParseFail> {
    parse_int(strip_zero_prefix(id, 'x'), 16, 0xFFFF_FFFF)
}

/// The message of a rejected id: `"Invalid <which> <id>: <reason>"`.
pub open spec fn invalid_id_text(which: Seq<char>, id: Seq<char>, f: ParseFail) -> Seq<char> {
    "Invalid "@ + which + " "@ + id + ": "@ + parse_fail_text(f)
}

/// What `tx_can_id`/`rx_can_id` return for an id string.
pub open spec fn id_result_matches(r: Result<u32, SterngateError>, which: Seq<char>, id: Seq<char>) -> bool {
    match can_id_of(id) {
        Ok(v) => r == Ok::<u32, SterngateError>(v as u32),
        Err(f) => match r {
            Err(SterngateError::ProfileError(m)) => m@ == invalid_id_text(which, id, f),
            _ => false,
        },
    }
}

proof fn lemma_first_key_bounds(names: Seq<(String, String)>, code: Seq<char>)
    ensures
        match first_key(names, code) {
            Some(i) => 0 <= i < names.len() && names[i].0@ == code && forall|j: int|
                0 <= j < i ==> #[trigger] names[j].0@ != code,
            None => forall|j: int| 0 <= j < names.len() ==> #[trigger] names[j].0@ != code,
        },
    decreases names.len(),
{
    if names.len() > 0 {
        lemma_first_key_bounds(names.drop_first(), code);
        match first_key(names.drop_first(), code) {
            Some(i) => {
                assert forall|j: int| 0 <= j < i + 1 implies #[trigger] names[j].0@ != code || names[0].0@
                    == code by {
                    if j > 0 {
                        assert(names[j] == names.drop_first()[j - 1]);
                    }
                }
            },
            None => {
                assert forall|j: int| 0 <= j < names.len() implies #[trigger] names[j].0@ != code
                    || names[0].0@ == code by {
                    if j > 0 {
                        assert(names[j] == names.drop_first()[j - 1]);
                    }
                }
            },
        }
    }
}

/// Parses a hexadecimal CAN identifier; on failure the error names `which` id it was.
fn parse_can_id(id: &String, which: &str) -> (r: Result<u32, SterngateError>)
    ensures
        id_result_matches(r, which@, id@),
{
    let chars = str_chars(id.as_str());
    let from = zero_prefix_end(chars.as_slice(), 0, 'x');
    proof {
        assert(chars@.skip(0) =~= chars@);
    }
    let digits = vstd::slice::slice_subrange(chars.as_slice(), from, chars.len());
    proof {
        assert(digits@ =~= chars@.skip(from as int));
    }
    match parse_int_radix(digits, 16, 0xFFFF_FFFF) {
        Ok(v) => Ok(v),
        Err(f) => {
            let mut msg = String::new();
            push_str(&mut msg, "Invalid ");
            push_str(&mut msg, which);
            push_str(&mut msg, " ");
            push_str(&mut msg, id.as_str());
            push_str(&mut msg, ": ");
            push_parse_fail(&mut msg, f);
            proof {
                assert(msg@ =~= invalid_id_text(which@, id@, f));
            }
            Err(SterngateError::ProfileError(msg))
        },
    }
}

impl ModuleDef {
    /// The module's name in `lang`, falling back to its default name.
    pub fn localized_name(&self, lang: Language) -> (r: &str)
        ensures
            r@ == localized(self.name@, self.names@, language_code(lang)),
    {
        let code = lang.code();
        let mut i: usize = 0;
        proof {
            lemma_first_key_bounds(self.names@, code@);
        }
        while i < self.names.len()
            invariant
                i <= self.names@.len(),
                forall|j: int| 0 <= j < i ==> #[trigger] self.names@[j].0@ != code@,
                code@ == language_code(lang),
                match first_key(self.names@, code@) {
                    Some(k) => 0 <= k < self.names@.len() && self.names@[k].0@ == code@ && forall|j: int|
                        0 <= j < k ==> #[trigger] self.names@[j].0@ != code@,
                    None => forall|j: int| 0 <= j < self.names@.len() ==> #[trigger] self.names@[j].0@ != code@,
                },
            decreases self.names@.len() - i,
        {
            let key = str_chars(self.names[i].0.as_str());
            if chars_eq(key.as_slice(), code) {
                proof {
                    match first_key(self.names@, code@) {
                        Some(k) => {
                            if k < i {
                                assert(self.names@[k].0@ != code@);
                            }
                            if k > i {
                                assert(self.names@[i as int].0@ != code@);
                            }
                        },
                        None => {
                            assert(self.names@[i as int].0@ != code@);
                        },
                    }
                }
                return self.names[i].1.as_str();
            }
            i = i + 1;
        }
        proof {
            match first_key(self.names@, code@) {
                Some(k) => {
                    assert(self.names@[k].0@ != code@);
                },
                None => {},
            }
        }
        self.name.as_str()
    }

    /// The transmit CAN identifier, read from the hexadecimal `tx_id`.
    pub fn tx_can_id(&self) -> (r: Result<u32, SterngateError>)
        ensures
            id_result_matches(r, "tx_id"@, self.tx_id@),
    {
        parse_can_id(&self.tx_id, "tx_id")
    }

    /// The receive CAN identifier, read from the hexadecimal `rx_id`.
    pub fn rx_can_id(&self) -> (r: Result<u32, SterngateError>)
        ensures
            id_result_matches(r, "rx_id"@, self.rx_id@),
    {
        parse_can_id(&self.rx_id, "rx_id")
    }
}

/// The plain-value part of a profile parameter: its identity, owning module, and where
/// its raw value sits in a diagnostic response (its scaling to a physical value is
/// applied by the caller).
#[derive(Debug, Clone, PartialEq, Eq)]
pub struct ParameterLayout {
    pub id: String,
    pub name: String,
    pub module: String,
    pub did: String,
    pub byte_offset: usize,
    pub length: usize,
}

/// The raw reading of a parameter: the unsigned big-endian value of its bytes and the
/// bytes as upper-case hexadecimal pairs separated by spaces.
#[derive(Debug, Clone, PartialEq, Eq)]
pub struct RawParameter {
    pub raw: u32,
    pub raw_hex: String,
}

/// The DID a parameter names: its hexadecimal text without leading `0x`s, as `u16`.
pub open spec fn did_value(did: Seq<char>) -> Result<nat, ParseFail> {
    parse_int(strip_zero_prefix(did, 'x'), 16, 0xFFFF)
}

/// The big-endian value of `b`.
pub open spec fn be_value_of(b: Seq<u8>) -> nat
    decreases b.len(),
{
    if b.len() == 0 {
        0
    } else {
        be_value_of(b.drop_last()) * 256 + b.last() as nat
    }
}

/// `b` as upper-case hexadecimal pairs separated by spaces.
pub open spec fn hex_pairs(b: Seq<u8>) -> Seq<char>
    decreases b.len(),
{
    if b.len() == 0 {
        Seq::empty()
    } else if b.len() == 1 {
        hex_padded(b[0] as nat, 2)
    } else {
        hex_pairs(b.drop_last()) + " "@ + hex_padded(b.last() as nat, 2)
    }
}

/// Whether a response carries its data at the parameter's own byte offset (no positive
/// response header to skip).
pub open spec fn uses_offset(payload: Seq<u8>) -> bool {
    !(payload.len() >= 3 && payload[0] == 0x62) && !(payload.len() >= 2 && payload[0] == 0x61)
}

/// What reading a parameter from a response gives: its bytes, or the reason it failed.
/// A `0x62` response must echo the DID and its data follows it; a `0x61` response's data
/// follows its identifier byte; any other payload is read at the parameter's offset.
pub open spec fn raw_outcome(p: ParameterLayout, payload: Seq<u8>) -> Result<Seq<u8>, Seq<char>> {
    match did_value(p.did@) {
        Err(f) => Err("Invalid hex DID "@ + p.did@ + ": "@ + parse_fail_text(f)),
        Ok(did) => {
            if payload.len() >= 3 && payload[0] == 0x62 && payload[1] as nat * 256 + payload[2] as nat != did {
                Err("Mismatched DID response: expected 0x"@ + hex_padded(did, 4) + ", got 0x"@
                    + hex_padded(payload[1] as nat * 256 + payload[2] as nat, 4))
            } else {
                let (data, start) = if payload.len() >= 3 && payload[0] == 0x62 {
                    (payload.skip(3), 0nat)
                } else if payload.len() >= 2 && payload[0] == 0x61 {
                    (payload.skip(2), 0nat)
                } else {
                    (payload, p.byte_offset as nat)
                };
                if start + p.length > data.len() {
                    Err("Payload too short for length "@ + decimal(p.length as nat) + ": available "@
                        + decimal(data.len()))
                } else if p.length != 1 && p.length != 2 && p.length != 4 {
                    Err("Unsupported byte length: "@ + decimal(p.length as nat))
                } else {
                    Ok(data.subrange(start as int, start + p.length))
                }
            }
        },
    }
}

proof fn lemma_be_value_bound(b: Seq<u8>)
    ensures
        b.len() <= 4 ==> be_value_of(b) < pow256(b.len()),
    decreases b.len(),
{
    if b.len() > 0 {
        lemma_be_value_bound(b.drop_last());
        if b.len() <= 4 {
            assert(be_value_of(b.drop_last()) * 256 + b.last() < pow256(b.len())) by (nonlinear_arith)
                requires
                    be_value_of(b.drop_last()) < pow256((b.len() - 1) as nat),
                    pow256(b.len()) == pow256((b.len() - 1) as nat) * 256,
                    b.last() < 256,
            ;
        }
    }
}

/// 256 to the power `n`.
pub open spec fn pow256(n: nat) -> nat
    decreases n,
{
    if n == 0 {
        1
    } else {
        pow256((n - 1) as nat) * 256
    }
}

fn parse_failure(id: &String, reason: String) -> (r: SterngateError)
    ensures
        r matches SterngateError::ParameterParseError { name, reason: why } && name@ == id@ && why@ == reason@,
{
    let mut name = String::new();
    push_str(&mut name, id.as_str());
    SterngateError::ParameterParseError { name, reason }
}

impl ParameterLayout {
    /// Reads the parameter's raw value from a diagnostic response (`raw_outcome`); a
    /// failure names the parameter's id.
    pub fn parse_raw(&self, payload: &[u8]) -> (r: Result<RawParameter, SterngateError>)
        requires
            uses_offset(payload@) ==> self.byte_offset + self.length <= usize::MAX,
        ensures
            match raw_outcome(*self, payload@) {
                Ok(b) => r matches Ok(v) && v.raw == be_value_of(b) && v.raw_hex@ == hex_pairs(b),
                Err(m) => r matches Err(SterngateError::ParameterParseError { name, reason }) && name@ == self.id@
                    && reason@ == m,
            },
    {
        let chars = str_chars(self.did.as_str());
        let from = zero_prefix_end(chars.as_slice(), 0, 'x');
        proof {
            assert(chars@.skip(0) =~= chars@);
        }
        let digits = vstd::slice::slice_subrange(chars.as_slice(), from, chars.len());
        proof {
            assert(digits@ =~= chars@.skip(from as int));
        }
        let did = match parse_int_radix(digits, 16, 0xFFFF) {
            Ok(v) => v,
            Err(f) => {
                let mut m = String::new();
                push_str(&mut m, "Invalid hex DID ");
                push_str(&mut m, self.did.as_str());
                push_str(&mut m, ": ");
                push_parse_fail(&mut m, f);
                proof {
                    assert(m@ =~= "Invalid hex DID "@ + self.did@ + ": "@ + parse_fail_text(f));
                }
                return Err(parse_failure(&self.id, m));
            },
        };
        let n = payload.len();
        let (start, skip): (usize, usize) = if n >= 3 && payload[0] == 0x62 {
            let resp_did: u32 = (payload[1] as u32) * 256 + (payload[2] as u32);
            if resp_did != did {
                let mut m = String::new();
                push_str(&mut m, "Mismatched DID response: expected 0x");
                push_hex_padded(&mut m, did as u64, 4);
                push_str(&mut m, ", got 0x");
                push_hex_padded(&mut m, resp_did as u64, 4);
                proof {
                    assert(m@ =~= "Mismatched DID response: expected 0x"@ + hex_padded(did as nat, 4) + ", got 0x"@
                        + hex_padded(resp_did as nat, 4));
                }
                return Err(parse_failure(&self.id, m));
            }
            (0, 3)
        } else if n >= 2 && payload[0] == 0x61 {
            (0, 2)
        } else {
            (self.byte_offset, 0)
        };
        let avail = n - skip;
        if start + self.length > avail {
            let mut m = String::new();
            push_str(&mut m, "Payload too short for length ");
            push_decimal(&mut m, self.length as u64);
            push_str(&mut m, ": available ");
            push_decimal(&mut m, avail as u64);
            proof {
                assert(m@ =~= "Payload too short for length "@ + decimal(self.length as nat) + ": available "@
                    + decimal(avail as nat));
                assert(payload@.skip(skip as int).len() == avail);
            }
            return Err(parse_failure(&self.id, m));
        }
        if self.length != 1 && self.length != 2 && self.length != 4 {
            let mut m = String::new();
            push_str(&mut m, "Unsupported byte length: ");
            push_decimal(&mut m, self.length as u64);
            proof {
                assert(m@ =~= "Unsupported byte length: "@ + decimal(self.length as nat));
            }
            return Err(parse_failure(&self.id, m));
        }
        let ghost slice = payload@.subrange(skip + start, skip + start + self.length);
        proof {
            if skip == 3 {
                assert(payload@.skip(3).subrange(start as int, start + self.length) =~= slice);
            } else if skip == 2 {
                assert(payload@.skip(2).subrange(start as int, start + self.length) =~= slice);
            }
        }
        let mut raw: u32 = 0;
        let mut hex = String::new();
        let mut i: usize = 0;
        while i < self.length
            invariant
                self.length <= 4,
                n == payload@.len(),
                skip + start + self.length <= payload@.len(),
                slice == payload@.subrange(skip + start, skip + start + self.length),
                i <= self.length,
                raw as nat == be_value_of(slice.take(i as int)),
                hex@ == hex_pairs(slice.take(i as int)),
            decreases self.length - i,
        {
            let b = payload[skip + start + i];
            proof {
                assert(slice.take(i + 1).drop_last() =~= slice.take(i as int));
                assert(slice.take(i + 1).last() == b);
                lemma_be_value_bound(slice.take(i + 1));
                assert(pow256((i + 1) as nat) <= pow256(4)) by {
                    reveal_with_fuel(pow256, 5);
                }
                assert(pow256(4) == 0x1_0000_0000) by {
                    reveal_with_fuel(pow256, 5);
                }
            }
            raw = raw * 256 + (b as u32);
            if i > 0 {
                push_str(&mut hex, " ");
            }
            push_hex_padded(&mut hex, b as u64, 2);
            proof {
                if i == 0 {
                    assert(slice.take(1) =~= seq![b]);
                }
            }
            i = i + 1;
        }
        proof {
            assert(slice.take(self.length as int) =~= slice);
        }
        Ok(RawParameter { raw, raw_hex: hex })
    }
}

/// A parameter answers to `key` when its id or its DID text equals it up to ASCII case.
pub open spec fn answers_to(p: ParameterLayout, key: Seq<char>) -> bool {
    eq_ignore_ascii_case(encode_utf8(p.id@), encode_utf8(key)) || eq_ignore_ascii_case(
        encode_utf8(p.did@),
        encode_utf8(key),
    )
}

/// Index of the first parameter that answers to `key`.
pub open spec fn first_answering(params: Seq<ParameterLayout>, key: Seq<char>) -> Option<int>
    decreases params.len(),
{
    if params.len() == 0 {
        None
    } else if answers_to(params[0], key) {
        Some(0)
    } else {
        match first_answering(params.drop_first(), key) {
            Some(i) => Some(i + 1),
            None => None,
        }
    }
}

proof fn lemma_first_answering(params: Seq<ParameterLayout>, key: Seq<char>, i: int)
    requires
        0 <= i <= params.len(),
        forall|j: int| 0 <= j < i ==> !answers_to(#[trigger] params[j], key),
        i < params.len() ==> answers_to(params[i], key),
        i == params.len() ==> forall|j: int| 0 <= j < params.len() ==> !answers_to(#[trigger] params[j], key),
    ensures
        first_answering(params, key) == (if i < params.len() { Some(i) } else { None::<int> }),
    decreases params.len(),
{
    if params.len() > 0 && i > 0 {
        let t = params.drop_first();
        assert forall|j: int| 0 <= j < i - 1 implies !answers_to(#[trigger] t[j], key) by {
            assert(t[j] == params[j + 1]);
        }
        if i < params.len() {
            assert(t[i - 1] == params[i]);
        } else {
            assert forall|j: int| 0 <= j < t.len() implies !answers_to(#[trigger] t[j], key) by {
                assert(t[j] == params[j + 1]);
            }
        }
        lemma_first_answering(t, key, i - 1);
    }
}

/// The first parameter of a profile that answers to `key` (its id or DID, ASCII case
/// aside).
pub fn find_parameter(params: &[ParameterLayout], key: &str) -> (r: Option<usize>)
    ensures
        match first_answering(params@, key@) {
            Some(i) => r == Some(i as usize),
            None => r is None,
        },
        r matches Some(i) ==> i < params@.len() && first_answering(params@, key@) == Some(i as int),
{
    let kb = key.as_bytes();
    let mut i: usize = 0;
    while i < params.len()
        invariant
            i <= params@.len(),
            kb@ == encode_utf8(key@),
            forall|j: int| 0 <= j < i ==> !answers_to(#[trigger] params@[j], key@),
        decreases params@.len() - i,
    {
        let p = &params[i];
        if eq_ignore_case_bytes(p.id.as_str().as_bytes(), kb) || eq_ignore_case_bytes(p.did.as_str().as_bytes(), kb) {
            proof {
                lemma_first_answering(params@, key@, i as int);
            }
            return Some(i);
        }
        i = i + 1;
    }
    proof {
        lemma_first_answering(params@, key@, i as int);
    }
    None
}

} // verus!
