//! Vehicle identification: decoding of 17-character VINs, with Daimler / Mercedes-Benz
//! model and engine tables.

use crate::text::{
    all_ascii, ascii_upper, byte_substring, chars_eq, is_unicode_whitespace, lemma_trim_ws_ends, push_str,
    str_chars, string_of, to_upper, trim, trim_ws, upper_of,
};
use vstd::prelude::*;
use vstd::string::StringSliceAdditionalSpecFns;
use vstd::utf8::{
    decode_utf8, encode_scalar, encode_utf8, has_width_1_encoding, is_char_boundary, length_of_first_scalar,
    pop_first_scalar, valid_first_scalar, valid_utf8,
};

verus! {

/// A decoded VIN.
#[derive(Debug, Clone, PartialEq)]
pub struct DecodedVin {
    pub raw_vin: String,
    pub manufacturer: String,
    pub model_series: String,
    pub body_style: String,
    pub model_name: String,
    pub engine: String,
    pub plant_code: Option<char>,
    pub serial_number: String,
}

/// The descriptive fields of a decoded VIN.
pub struct VinFields {
    pub manufacturer: Seq<char>,
    pub model_series: Seq<char>,
    pub body_style: Seq<char>,
    pub model_name: Seq<char>,
    pub engine: Seq<char>,
}

/// The characters encoded by bytes `a..b` of `s`.
pub open spec fn byte_range(s: Seq<char>, a: int, b: int) -> Seq<char> {
    decode_utf8(encode_utf8(s).subrange(a, b))
}

/// Body style of an E-Class by its body character.
pub open spec fn e211_body(c: char) -> Seq<char> {
    if c == '2' {
        "Estate / T-Modell (S211)"@
    } else if c == '0' {
        "Sedan / Saloon (W211)"@
    } else if c == '6' {
        "Long Wheelbase (V211)"@
    } else {
        "W211 / S211 Family"@
    }
}

/// Model name and engine of an E-Class by its engine code, estate or not.
pub open spec fn e211_variant(code: Seq<char>, estate: bool) -> (Seq<char>, Seq<char>) {
    if code == "06"@ {
        (if estate {
            "E 220 T CDI"@
        } else {
            "E 220 CDI"@
        }, "OM646 2.2L CDI (150 hp, EDC16)"@)
    } else if code == "08"@ {
        (if estate {
            "E 220 T CDI EVO"@
        } else {
            "E 220 CDI EVO"@
        }, "OM646 EVO 2.2L CDI (170 hp, EDC16CP31)"@)
    } else if code == "04"@ {
        (if estate {
            "E 200 T CDI"@
        } else {
            "E 200 CDI"@
        }, "OM646 2.2L CDI (122/136 hp)"@)
    } else if code == "16"@ {
        (if estate {
            "E 270 T CDI"@
        } else {
            "E 270 CDI"@
        }, "OM647 2.7L I5 CDI (177 hp)"@)
    } else if code == "26"@ {
        (if estate {
            "E 320 T CDI"@
        } else {
            "E 320 CDI"@
        }, "OM648 3.2L I6 CDI (204 hp)"@)
    } else if code == "22"@ {
        (if estate {
            "E 320 T CDI V6"@
        } else {
            "E 320 CDI V6"@
        }, "OM642 3.0L V6 CDI (224 hp, CR4)"@)
    } else if code == "65"@ {
        (if estate {
            "E 320 T"@
        } else {
            "E 320"@
        }, "M112 3.2L V6 (224 hp, ME2.8)"@)
    } else if code == "70"@ {
        (if estate {
            "E 500 T"@
        } else {
            "E 500"@
        }, "M113 5.0L V8 (306 hp, ME2.8)"@)
    } else if code == "72"@ {
        (if estate {
            "E 500 T"@
        } else {
            "E 500"@
        }, "M273 5.5L V8 (388 hp, ME9.7)"@)
    } else {
        (if estate {
            "E-Class Estate"@
        } else {
            "E-Class Sedan"@
        }, "Mercedes-Benz Powertrain"@)
    }
}

/// The engine codes of the E-Class (211) table, in table order.
pub open spec fn e211_engine_codes() -> Seq<Seq<char>> {
    seq!["06"@, "08"@, "04"@, "16"@, "26"@, "22"@, "65"@, "70"@, "72"@]
}

/// The E-Class engine table: each listed engine code names its own engine, whatever
/// the body (distinct codes give distinct engines), and code "06" is the 150 hp OM646
/// with EDC16.
pub proof fn lemma_e211_engine_table(i: int, j: int, estate_i: bool, estate_j: bool)
    requires
        0 <= i < j < e211_engine_codes().len(),
    ensures
        e211_variant(e211_engine_codes()[i], estate_i).1 != e211_variant(e211_engine_codes()[j], estate_j).1,
        e211_variant("06"@, estate_i).1 == "OM646 2.2L CDI (150 hp, EDC16)"@,
{
    reveal_strlit("06");
    reveal_strlit("08");
    reveal_strlit("04");
    reveal_strlit("16");
    reveal_strlit("26");
    reveal_strlit("22");
    reveal_strlit("65");
    reveal_strlit("70");
    reveal_strlit("72");
    reveal_strlit("OM646 2.2L CDI (150 hp, EDC16)");
    reveal_strlit("OM646 EVO 2.2L CDI (170 hp, EDC16CP31)");
    reveal_strlit("OM646 2.2L CDI (122/136 hp)");
    reveal_strlit("OM647 2.7L I5 CDI (177 hp)");
    reveal_strlit("OM648 3.2L I6 CDI (204 hp)");
    reveal_strlit("OM642 3.0L V6 CDI (224 hp, CR4)");
    reveal_strlit("M112 3.2L V6 (224 hp, ME2.8)");
    reveal_strlit("M113 5.0L V8 (306 hp, ME2.8)");
    reveal_strlit("M273 5.5L V8 (388 hp, ME9.7)");
    assert("06"@[1] != "08"@[1]);
    assert("06"@[1] != "04"@[1]);
    assert("06"@[0] != "16"@[0]);
    assert("06"@[0] != "26"@[0]);
    assert("06"@[0] != "22"@[0]);
    assert("06"@[0] != "65"@[0]);
    assert("06"@[0] != "70"@[0]);
    assert("06"@[0] != "72"@[0]);
    assert("08"@[1] != "04"@[1]);
    assert("08"@[0] != "16"@[0]);
    assert("08"@[0] != "26"@[0]);
    assert("08"@[0] != "22"@[0]);
    assert("08"@[0] != "65"@[0]);
    assert("08"@[0] != "70"@[0]);
    assert("08"@[0] != "72"@[0]);
    assert("04"@[0] != "16"@[0]);
    assert("04"@[0] != "26"@[0]);
    assert("04"@[0] != "22"@[0]);
    assert("04"@[0] != "65"@[0]);
    assert("04"@[0] != "70"@[0]);
    assert("04"@[0] != "72"@[0]);
    assert("16"@[0] != "26"@[0]);
    assert("16"@[0] != "22"@[0]);
    assert("16"@[0] != "65"@[0]);
    assert("16"@[0] != "70"@[0]);
    assert("16"@[0] != "72"@[0]);
    assert("26"@[1] != "22"@[1]);
    assert("26"@[0] != "65"@[0]);
    assert("26"@[0] != "70"@[0]);
    assert("26"@[0] != "72"@[0]);
    assert("22"@[0] != "65"@[0]);
    assert("22"@[0] != "70"@[0]);
    assert("22"@[0] != "72"@[0]);
    assert("65"@[0] != "70"@[0]);
    assert("65"@[0] != "72"@[0]);
    assert("70"@[1] != "72"@[1]);
    assert("OM646 2.2L CDI (150 hp, EDC16)"@.len() != "OM646 EVO 2.2L CDI (170 hp, EDC16CP31)"@.len());
    assert("OM646 2.2L CDI (150 hp, EDC16)"@.len() != "OM646 2.2L CDI (122/136 hp)"@.len());
    assert("OM646 2.2L CDI (150 hp, EDC16)"@.len() != "OM647 2.7L I5 CDI (177 hp)"@.len());
    assert("OM646 2.2L CDI (150 hp, EDC16)"@.len() != "OM648 3.2L I6 CDI (204 hp)"@.len());
    assert("OM646 2.2L CDI (150 hp, EDC16)"@.len() != "OM642 3.0L V6 CDI (224 hp, CR4)"@.len());
    assert("OM646 2.2L CDI (150 hp, EDC16)"@.len() != "M112 3.2L V6 (224 hp, ME2.8)"@.len());
    assert("OM646 2.2L CDI (150 hp, EDC16)"@.len() != "M113 5.0L V8 (306 hp, ME2.8)"@.len());
    assert("OM646 2.2L CDI (150 hp, EDC16)"@.len() != "M273 5.5L V8 (388 hp, ME9.7)"@.len());
    assert("OM646 EVO 2.2L CDI (170 hp, EDC16CP31)"@.len() != "OM646 2.2L CDI (122/136 hp)"@.len());
    assert("OM646 EVO 2.2L CDI (170 hp, EDC16CP31)"@.len() != "OM647 2.7L I5 CDI (177 hp)"@.len());
    assert("OM646 EVO 2.2L CDI (170 hp, EDC16CP31)"@.len() != "OM648 3.2L I6 CDI (204 hp)"@.len());
    assert("OM646 EVO 2.2L CDI (170 hp, EDC16CP31)"@.len() != "OM642 3.0L V6 CDI (224 hp, CR4)"@.len());
    assert("OM646 EVO 2.2L CDI (170 hp, EDC16CP31)"@.len() != "M112 3.2L V6 (224 hp, ME2.8)"@.len());
    assert("OM646 EVO 2.2L CDI (170 hp, EDC16CP31)"@.len() != "M113 5.0L V8 (306 hp, ME2.8)"@.len());
    assert("OM646 EVO 2.2L CDI (170 hp, EDC16CP31)"@.len() != "M273 5.5L V8 (388 hp, ME9.7)"@.len());
    assert("OM646 2.2L CDI (122/136 hp)"@.len() != "OM647 2.7L I5 CDI (177 hp)"@.len());
    assert("OM646 2.2L CDI (122/136 hp)"@.len() != "OM648 3.2L I6 CDI (204 hp)"@.len());
    assert("OM646 2.2L CDI (122/136 hp)"@.len() != "OM642 3.0L V6 CDI (224 hp, CR4)"@.len());
    assert("OM646 2.2L CDI (122/136 hp)"@.len() != "M112 3.2L V6 (224 hp, ME2.8)"@.len());
    assert("OM646 2.2L CDI (122/136 hp)"@.len() != "M113 5.0L V8 (306 hp, ME2.8)"@.len());
    assert("OM646 2.2L CDI (122/136 hp)"@.len() != "M273 5.5L V8 (388 hp, ME9.7)"@.len());
    assert("OM647 2.7L I5 CDI (177 hp)"@[4] != "OM648 3.2L I6 CDI (204 hp)"@[4]);
    assert("OM647 2.7L I5 CDI (177 hp)"@.len() != "OM642 3.0L V6 CDI (224 hp, CR4)"@.len());
    assert("OM647 2.7L I5 CDI (177 hp)"@.len() != "M112 3.2L V6 (224 hp, ME2.8)"@.len());
    assert("OM647 2.7L I5 CDI (177 hp)"@.len() != "M113 5.0L V8 (306 hp, ME2.8)"@.len());
    assert("OM647 2.7L I5 CDI (177 hp)"@.len() != "M273 5.5L V8 (388 hp, ME9.7)"@.len());
    assert("OM648 3.2L I6 CDI (204 hp)"@.len() != "OM642 3.0L V6 CDI (224 hp, CR4)"@.len());
    assert("OM648 3.2L I6 CDI (204 hp)"@.len() != "M112 3.2L V6 (224 hp, ME2.8)"@.len());
    assert("OM648 3.2L I6 CDI (204 hp)"@.len() != "M113 5.0L V8 (306 hp, ME2.8)"@.len());
    assert("OM648 3.2L I6 CDI (204 hp)"@.len() != "M273 5.5L V8 (388 hp, ME9.7)"@.len());
    assert("OM642 3.0L V6 CDI (224 hp, CR4)"@.len() != "M112 3.2L V6 (224 hp, ME2.8)"@.len());
    assert("OM642 3.0L V6 CDI (224 hp, CR4)"@.len() != "M113 5.0L V8 (306 hp, ME2.8)"@.len());
    assert("OM642 3.0L V6 CDI (224 hp, CR4)"@.len() != "M273 5.5L V8 (388 hp, ME9.7)"@.len());
    assert("M112 3.2L V6 (224 hp, ME2.8)"@[3] != "M113 5.0L V8 (306 hp, ME2.8)"@[3]);
    assert("M112 3.2L V6 (224 hp, ME2.8)"@[1] != "M273 5.5L V8 (388 hp, ME9.7)"@[1]);
    assert("M113 5.0L V8 (306 hp, ME2.8)"@[1] != "M273 5.5L V8 (388 hp, ME9.7)"@[1]);
    let engines = seq![
        "OM646 2.2L CDI (150 hp, EDC16)"@,
        "OM646 EVO 2.2L CDI (170 hp, EDC16CP31)"@,
        "OM646 2.2L CDI (122/136 hp)"@,
        "OM647 2.7L I5 CDI (177 hp)"@,
        "OM648 3.2L I6 CDI (204 hp)"@,
        "OM642 3.0L V6 CDI (224 hp, CR4)"@,
        "M112 3.2L V6 (224 hp, ME2.8)"@,
        "M113 5.0L V8 (306 hp, ME2.8)"@,
        "M273 5.5L V8 (388 hp, ME9.7)"@
    ];
    assert forall|k: int| 0 <= k < 9 implies #[trigger] e211_variant(e211_engine_codes()[k], estate_i).1 == engines[k]
        && e211_variant(e211_engine_codes()[k], estate_j).1 == engines[k] by {}
}

/// Fields of a Mercedes-Benz VIN by chassis digits, descriptor section and engine code.
pub open spec fn mercedes_fields(chassis: Seq<char>, vds: Seq<char>, engine_code: Seq<char>) -> VinFields {
    if chassis == "211"@ {
        let body_char = if vds.len() > 3 {
            vds[3]
        } else {
            '0'
        };
        let v = e211_variant(engine_code, body_char == '2');
        VinFields {
            manufacturer: "Mercedes-Benz"@,
            model_series: "S211 / W211 (E-Class)"@,
            body_style: e211_body(body_char),
            model_name: v.0,
            engine: v.1,
        }
    } else if chassis == "204"@ {
        VinFields {
            manufacturer: "Mercedes-Benz"@,
            model_series: "W204 / S204 (C-Class)"@,
            body_style: "C-Class"@,
            model_name: "C-Class"@,
            engine: "OM651 / M272"@,
        }
    } else if chassis == "221"@ {
        VinFields {
            manufacturer: "Mercedes-Benz"@,
            model_series: "W221 (S-Class)"@,
            body_style: "S-Class Sedan"@,
            model_name: "S-Class"@,
            engine: "M273 / OM642"@,
        }
    } else if chassis == "203"@ {
        VinFields {
            manufacturer: "Mercedes-Benz"@,
            model_series: "W203 / S203 (C-Class)"@,
            body_style: "C-Class"@,
            model_name: "C-Class"@,
            engine: "OM646 / M111 / M271"@,
        }
    } else if chassis == "164"@ {
        VinFields {
            manufacturer: "Mercedes-Benz"@,
            model_series: "W164 (ML-Class)"@,
            body_style: "ML SUV"@,
            model_name: "ML-Class"@,
            engine: "OM642 / M272 / M273"@,
        }
    } else {
        VinFields {
            manufacturer: "Mercedes-Benz"@,
            model_series: "Chassis "@ + chassis,
            body_style: "Passenger Car"@,
            model_name: "Mercedes-Benz"@,
            engine: "Engine Unspecified"@,
        }
    }
}

/// Whether the world manufacturer code is a Mercedes-Benz one.
pub open spec fn is_mercedes_wmi(w: Seq<char>) -> bool {
    w == "WDB"@ || w == "WDC"@ || w == "WDD"@ || w == "WDZ"@ || w == "4JG"@
}

/// The descriptive fields of a cleaned VIN of at least 17 bytes.
pub open spec fn vin_fields(clean: Seq<char>) -> VinFields {
    let wmi = byte_range(clean, 0, 3);
    if is_mercedes_wmi(wmi) {
        mercedes_fields(byte_range(clean, 3, 6), byte_range(clean, 3, 9), byte_range(clean, 7, 9))
    } else if wmi == "WVW"@ || wmi == "WAU"@ {
        VinFields {
            manufacturer: "Volkswagen Group"@,
            model_series: "VAG Platform"@,
            body_style: "Passenger Car"@,
            model_name: "VAG Vehicle"@,
            engine: "TDI / TSI / TFSI"@,
        }
    } else if wmi == "WBA"@ || wmi == "WBS"@ {
        VinFields {
            manufacturer: "BMW AG"@,
            model_series: "BMW Platform"@,
            body_style: "Passenger Car"@,
            model_name: "BMW Vehicle"@,
            engine: "BMW Powertrain"@,
        }
    } else {
        VinFields {
            manufacturer: "Vehicle Manufacturer"@,
            model_series: "Automotive Architecture"@,
            body_style: "Standard Body"@,
            model_name: "Automotive Vehicle"@,
            engine: "Internal Combustion / Hybrid"@,
        }
    }
}

/// A VIN as decoded: trimmed and upper-cased (an ASCII VIN has `a`..`z` mapped to
/// `A`..`Z` and nothing else changed).
pub open spec fn clean_vin(raw: Seq<char>) -> Seq<char> {
    upper_of(trim_ws(raw))
}

/// In bytes that are all ASCII every position is a character boundary.
proof fn lemma_ascii_boundary(b: Seq<u8>, i: int)
    requires
        forall|j: int| 0 <= j < b.len() ==> b[j] < 128,
        0 <= i <= b.len(),
    ensures
        valid_utf8(b),
        is_char_boundary(b, i),
    decreases b.len(),
{
    if b.len() > 0 {
        let x = b[0];
        assert((x & 0x7Fu8) as u32 <= 0x7Fu32) by (bit_vector);
        assert(valid_first_scalar(b));
        assert(length_of_first_scalar(b) == 1);
        assert(pop_first_scalar(b) =~= b.drop_first());
        lemma_ascii_boundary(b.drop_first(), if i > 0 { i - 1 } else { 0 });
    }
}

/// The UTF-8 encoding of ASCII characters is made of ASCII bytes.
proof fn lemma_ascii_encoding(cs: Seq<char>)
    requires
        all_ascii(cs),
    ensures
        forall|j: int| 0 <= j < encode_utf8(cs).len() ==> encode_utf8(cs)[j] < 128,
    decreases cs.len(),
{
    if cs.len() > 0 {
        let v = cs[0] as u32;
        assert(v < 128);
        assert(((v & 0x7Fu32) as u8) < 128u8) by (bit_vector);
        let rest = cs.drop_first();
        assert forall|i: int| 0 <= i < rest.len() implies (#[trigger] rest[i] as u32) < 128 by {
            assert(rest[i] == cs[i + 1]);
        }
        lemma_ascii_encoding(rest);
        let e = encode_utf8(cs);
        let head = seq![((v & 0x7Fu32) as u8)];
        assert(has_width_1_encoding(v));
        assert(encode_scalar(v) == head);
        assert(e == head + encode_utf8(rest));
        assert forall|j: int| 0 <= j < e.len() implies e[j] < 128 by {
            if j > 0 {
                assert(e[j] == encode_utf8(rest)[j - 1]);
            }
        }
    }
}

/// Decoding never cuts a VIN of ASCII characters inside a character.
pub proof fn lemma_ascii_vin_not_cut(clean: Seq<char>)
    requires
        all_ascii(clean),
    ensures
        !vin_cuts_char(clean),
{
    lemma_ascii_encoding(clean);
    let b = encode_utf8(clean);
    if b.len() >= 17 {
        lemma_ascii_boundary(b, 3);
        lemma_ascii_boundary(b, 6);
        lemma_ascii_boundary(b, 7);
        lemma_ascii_boundary(b, 9);
        lemma_ascii_boundary(b, 11);
        lemma_ascii_boundary(b, 17);
    }
}

/// Decoding a VIN that trims to ASCII a second time, from the cleaned VIN it recorded,
/// gives the same record: cleaning an already cleaned VIN changes nothing.
pub proof fn lemma_decode_idempotent(raw: Seq<char>, first: DecodedVin, second: DecodedVin)
    requires
        all_ascii(trim_ws(raw)),
        decoded_as(first, clean_vin(raw)),
        decoded_as(second, clean_vin(first.raw_vin@)),
    ensures
        clean_vin(clean_vin(raw)) == clean_vin(raw),
        !vin_cuts_char(clean_vin(raw)),
        decoded_as(second, clean_vin(raw)),
{
    let t = trim_ws(raw);
    let c = t.map_values(|x: char| ascii_upper(x));
    lemma_trim_ws_ends(raw);
    assert forall|i: int| 0 <= i < c.len() implies (#[trigger] c[i] as u32) < 128 && ascii_upper(c[i])
        == c[i] && (is_unicode_whitespace(c[i]) == is_unicode_whitespace(t[i])) by {
        assert((t[i] as u32) < 128);
    }
    assert(all_ascii(c));
    if c.len() > 0 {
        assert(c[0] == ascii_upper(t[0]));
        assert(c.last() == c[c.len() - 1]);
        assert(t.last() == t[t.len() - 1]);
    }
    assert(trim_ws(c) == c);
    assert(c.map_values(|x: char| ascii_upper(x)) =~= c);
    lemma_ascii_vin_not_cut(c);
}

/// Whether decoding would cut the cleaned VIN inside a character: at byte 3, 9, 11 or
/// 17, or, for a Mercedes-Benz VIN, at byte 6, or for an E-Class at byte 7.
pub open spec fn vin_cuts_char(clean: Seq<char>) -> bool {
    let b = encode_utf8(clean);
    &&& b.len() >= 17
    &&& {
        ||| !(is_char_boundary(b, 3) && is_char_boundary(b, 9) && is_char_boundary(b, 11)
            && is_char_boundary(b, 17))
        ||| (is_mercedes_wmi(byte_range(clean, 0, 3)) && (!is_char_boundary(b, 6) || (
        byte_range(clean, 3, 6) == "211"@ && !is_char_boundary(b, 7))))
    }
}

/// What decoding gives for a cleaned VIN that it does not cut inside a character.
pub open spec fn decoded_as(d: DecodedVin, clean: Seq<char>) -> bool {
    &&& d.raw_vin@ == clean
    &&& if encode_utf8(clean).len() < 17 {
        &&& d.manufacturer@ == "Unknown / Non-standard"@
        &&& d.model_series@ == "Generic"@
        &&& d.body_style@ == "Generic"@
        &&& d.model_name@ == "Vehicle"@
        &&& d.engine@ == "Unspecified"@
        &&& d.plant_code is None
        &&& d.serial_number@ == clean
    } else {
        let f = vin_fields(clean);
        &&& d.manufacturer@ == f.manufacturer
        &&& d.model_series@ == f.model_series
        &&& d.body_style@ == f.body_style
        &&& d.model_name@ == f.model_name
        &&& d.engine@ == f.engine
        &&& d.plant_code == (if clean.len() > 10 {
            Some(clean[10])
        } else {
            None
        })
        &&& d.serial_number@ == byte_range(clean, 11, 17)
    }
}

fn text(s: &str) -> (r: String)
    ensures
        r@ == s@,
{
    let mut r = String::new();
    push_str(&mut r, s);
    r
}

struct FieldsOut {
    manufacturer: String,
    model_series: String,
    body_style: String,
    model_name: String,
    engine: String,
}

spec fn fields_match(o: FieldsOut, f: VinFields) -> bool {
    &&& o.manufacturer@ == f.manufacturer
    &&& o.model_series@ == f.model_series
    &&& o.body_style@ == f.body_style
    &&& o.model_name@ == f.model_name
    &&& o.engine@ == f.engine
}

fn fields_of(m: &str, s: &str, b: &str, n: &str, e: &str) -> (r: FieldsOut)
    ensures
        r.manufacturer@ == m@,
        r.model_series@ == s@,
        r.body_style@ == b@,
        r.model_name@ == n@,
        r.engine@ == e@,
{
    FieldsOut {
        manufacturer: text(m),
        model_series: text(s),
        body_style: text(b),
        model_name: text(n),
        engine: text(e),
    }
}

fn e211_body_exec(c: char) -> (r: &'static str)
    ensures
        r@ == e211_body(c),
{
    if c == '2' {
        "Estate / T-Modell (S211)"
    } else if c == '0' {
        "Sedan / Saloon (W211)"
    } else if c == '6' {
        "Long Wheelbase (V211)"
    } else {
        "W211 / S211 Family"
    }
}

fn e211_variant_exec(code: &[char], estate: bool) -> (r: (&'static str, &'static str))
    ensures
        (r.0@, r.1@) == e211_variant(code@, estate),
{
    if chars_eq(code, "06") {
        return (if estate {
            "E 220 T CDI"
        } else {
            "E 220 CDI"
        }, "OM646 2.2L CDI (150 hp, EDC16)");
    }
    if chars_eq(code, "08") {
        return (if estate {
            "E 220 T CDI EVO"
        } else {
            "E 220 CDI EVO"
        }, "OM646 EVO 2.2L CDI (170 hp, EDC16CP31)");
    }
    if chars_eq(code, "04") {
        return (if estate {
            "E 200 T CDI"
        } else {
            "E 200 CDI"
        }, "OM646 2.2L CDI (122/136 hp)");
    }
    if chars_eq(code, "16") {
        return (if estate {
            "E 270 T CDI"
        } else {
            "E 270 CDI"
        }, "OM647 2.7L I5 CDI (177 hp)");
    }
    if chars_eq(code, "26") {
        return (if estate {
            "E 320 T CDI"
        } else {
            "E 320 CDI"
        }, "OM648 3.2L I6 CDI (204 hp)");
    }
    if chars_eq(code, "22") {
        return (if estate {
            "E 320 T CDI V6"
        } else {
            "E 320 CDI V6"
        }, "OM642 3.0L V6 CDI (224 hp, CR4)");
    }
    if chars_eq(code, "65") {
        return (if estate {
            "E 320 T"
        } else {
            "E 320"
        }, "M112 3.2L V6 (224 hp, ME2.8)");
    }
    if chars_eq(code, "70") {
        return (if estate {
            "E 500 T"
        } else {
            "E 500"
        }, "M113 5.0L V8 (306 hp, ME2.8)");
    }
    if chars_eq(code, "72") {
        return (if estate {
            "E 500 T"
        } else {
            "E 500"
        }, "M273 5.5L V8 (388 hp, ME9.7)");
    }
    (if estate {
        "E-Class Estate"
    } else {
        "E-Class Sedan"
    }, "Mercedes-Benz Powertrain")
}

fn mercedes_fields_exec(chassis: &[char], vds: &[char], engine_code: &[char]) -> (r: FieldsOut)
    ensures
        fields_match(r, mercedes_fields(chassis@, vds@, engine_code@)),
{
    if chars_eq(chassis, "211") {
        let body_char = if vds.len() > 3 {
            vds[3]
        } else {
            '0'
        };
        let (name, eng) = e211_variant_exec(engine_code, body_char == '2');
        return fields_of(
            "Mercedes-Benz",
            "S211 / W211 (E-Class)",
            e211_body_exec(body_char),
            name,
            eng,
        );
    }
    if chars_eq(chassis, "204") {
        return fields_of("Mercedes-Benz", "W204 / S204 (C-Class)", "C-Class", "C-Class", "OM651 / M272");
    }
    if chars_eq(chassis, "221") {
        return fields_of("Mercedes-Benz", "W221 (S-Class)", "S-Class Sedan", "S-Class", "M273 / OM642");
    }
    if chars_eq(chassis, "203") {
        return fields_of("Mercedes-Benz", "W203 / S203 (C-Class)", "C-Class", "C-Class", "OM646 / M111 / M271");
    }
    if chars_eq(chassis, "164") {
        return fields_of("Mercedes-Benz", "W164 (ML-Class)", "ML SUV", "ML-Class", "OM642 / M272 / M273");
    }
    let mut series = String::new();
    push_str(&mut series, "Chassis ");
    let cs = string_of(chassis);
    push_str(&mut series, cs.as_str());
    FieldsOut {
        manufacturer: text("Mercedes-Benz"),
        model_series: series,
        body_style: text("Passenger Car"),
        model_name: text("Mercedes-Benz"),
        engine: text("Engine Unspecified"),
    }
}

fn decode_clean(clean: &Vec<char>) -> (r: Option<DecodedVin>)
    ensures
        match r {
            Some(d) => !vin_cuts_char(clean@) && decoded_as(d, clean@),
            None => vin_cuts_char(clean@),
        },
{
    let cs = string_of(clean.as_slice());
    let st = cs.as_str();
    let ghost b = encode_utf8(clean@);
    proof {
        assert(st.spec_bytes() == b);
        vstd::utf8::encode_utf8_valid_utf8(clean@);
        vstd::utf8::is_char_boundary_start_end_of_seq(b);
    }
    if st.as_bytes().len() < 17 {
        return Some(
            DecodedVin {
                raw_vin: string_of(clean.as_slice()),
                manufacturer: text("Unknown / Non-standard"),
                model_series: text("Generic"),
                body_style: text("Generic"),
                model_name: text("Vehicle"),
                engine: text("Unspecified"),
                plant_code: None,
                serial_number: string_of(clean.as_slice()),
            },
        );
    }
    if !(st.is_char_boundary(3) && st.is_char_boundary(9) && st.is_char_boundary(11)
        && st.is_char_boundary(17)) {
        return None;
    }
    let wmi = byte_substring(st, 0, 3);
    let vds = byte_substring(st, 3, 9);
    let serial = byte_substring(st, 11, 17);
    let plant = if clean.len() > 10 {
        Some(clean[10])
    } else {
        None
    };
    let w = wmi.as_slice();
    let fields = if chars_eq(w, "WDB") || chars_eq(w, "WDC") || chars_eq(w, "WDD") || chars_eq(
        w,
        "WDZ",
    ) || chars_eq(w, "4JG") {
        if !st.is_char_boundary(6) {
            return None;
        }
        let chassis = byte_substring(st, 3, 6);
        if chars_eq(chassis.as_slice(), "211") && !st.is_char_boundary(7) {
            return None;
        }
        let engine_code = if st.is_char_boundary(7) {
            byte_substring(st, 7, 9)
        } else {
            Vec::new()
        };
        let ghost e7 = byte_range(clean@, 7, 9);
        let f = mercedes_fields_exec(chassis.as_slice(), vds.as_slice(), engine_code.as_slice());
        proof {
            if chassis@ != "211"@ {
                assert(mercedes_fields(chassis@, vds@, engine_code@) == mercedes_fields(
                    chassis@,
                    vds@,
                    e7,
                ));
            }
        }
        f
    } else if chars_eq(w, "WVW") || chars_eq(w, "WAU") {
        fields_of(
            "Volkswagen Group",
            "VAG Platform",
            "Passenger Car",
            "VAG Vehicle",
            "TDI / TSI / TFSI",
        )
    } else if chars_eq(w, "WBA") || chars_eq(w, "WBS") {
        fields_of("BMW AG", "BMW Platform", "Passenger Car", "BMW Vehicle", "BMW Powertrain")
    } else {
        fields_of(
            "Vehicle Manufacturer",
            "Automotive Architecture",
            "Standard Body",
            "Automotive Vehicle",
            "Internal Combustion / Hybrid",
        )
    };
    proof {
        assert(fields_match(fields, vin_fields(clean@)));
    }
    Some(
        DecodedVin {
            raw_vin: string_of(clean.as_slice()),
            manufacturer: fields.manufacturer,
            model_series: fields.model_series,
            body_style: fields.body_style,
            model_name: fields.model_name,
            engine: fields.engine,
            plant_code: plant,
            serial_number: string_of(serial.as_slice()),
        },
    )
}

fn clean_of(raw: &str) -> (r: Vec<char>)
    ensures
        r@ == clean_vin(raw@),
{
    let chars = str_chars(raw);
    let t = trim(chars.as_slice());
    to_upper(t.as_slice())
}

impl DecodedVin {
    /// Decodes a VIN after trimming and upper-casing it: shorter than 17 bytes gives the
    /// generic record; otherwise the manufacturer (world manufacturer code), Mercedes-Benz
    /// chassis, body style, model and engine, the plant character and the serial number.
    pub fn decode(raw: &str) -> (r: Self)
        requires
            !vin_cuts_char(clean_vin(raw@)),
        ensures
            decoded_as(r, clean_vin(raw@)),
    {
        let clean = clean_of(raw);
        match decode_clean(&clean) {
            Some(d) => d,
            None => {
                proof {
                    assert(false);
                }
                DecodedVin {
                    raw_vin: String::new(),
                    manufacturer: String::new(),
                    model_series: String::new(),
                    body_style: String::new(),
                    model_name: String::new(),
                    engine: String::new(),
                    plant_code: None,
                    serial_number: String::new(),
                }
            },
        }
    }

    /// Like [`DecodedVin::decode`], except for a VIN it would cut inside a character:
    /// then `None`.
    pub fn try_decode(raw: &str) -> (r: Option<Self>)
        ensures
            match r {
                Some(d) => !vin_cuts_char(clean_vin(raw@)) && decoded_as(d, clean_vin(raw@)),
                None => vin_cuts_char(clean_vin(raw@)),
            },
    {
        let clean = clean_of(raw);
        if decode_clean(&clean).is_some() {
            Some(Self::decode(raw))
        } else {
            None
        }
    }
}

/// Snapshot of one ECU found while interrogating a vehicle.
#[derive(Debug, Clone, PartialEq, Eq)]
pub struct VehicleEcuSnapshot {
    pub module_name: String,
    pub part_number: Option<String>,
    pub hardware_version: Option<String>,
    pub software_version: Option<String>,
    pub calibration_id: Option<String>,
    pub serial_number: Option<String>,
    pub protocol: String,
    pub can_tx_id: Option<String>,
    pub can_rx_id: Option<String>,
    pub dtc_count: usize,
}

impl Default for VehicleEcuSnapshot {
    fn default() -> (r: Self)
        ensures
            r.module_name@.len() == 0 && r.protocol@.len() == 0 && r.dtc_count == 0,
            r.part_number is None && r.hardware_version is None && r.software_version is None,
            r.calibration_id is None && r.serial_number is None && r.can_tx_id is None && r.can_rx_id is None,
    {
        VehicleEcuSnapshot {
            module_name: String::new(),
            part_number: None,
            hardware_version: None,
            software_version: None,
            calibration_id: None,
            serial_number: None,
            protocol: String::new(),
            can_tx_id: None,
            can_rx_id: None,
            dtc_count: 0,
        }
    }
}

/// One commit of a vehicle's configuration history.
#[derive(Debug, Clone, PartialEq, Eq)]
pub struct GitCommitInfo {
    pub hash: String,
    pub author: String,
    pub date: String,
    pub message: String,
}

/// The pieces of `s` between the `sep` characters (`str::split`); never empty.
pub open spec fn split_on(s: Seq<char>, sep: char) -> Seq<Seq<char>>
    decreases s.len(),
{
    if s.len() == 0 {
        seq![Seq::empty()]
    } else {
        let r = split_on(s.drop_last(), sep);
        if s.last() == sep {
            r.push(Seq::empty())
        } else {
            r.update(r.len() - 1, r.last().push(s.last()))
        }
    }
}

/// The commit a `hash|author|date|subject` line describes, if it has four fields; fields
/// past the fourth are dropped.
pub open spec fn line_commit(l: Seq<char>) -> Option<(Seq<char>, Seq<char>, Seq<char>, Seq<char>)> {
    let p = split_on(l, '|');
    if p.len() >= 4 {
        Some((p[0], p[1], p[2], p[3]))
    } else {
        None
    }
}

/// `cs` with the commit of line `l` added, if it has one.
pub open spec fn add_commit(cs: Seq<(Seq<char>, Seq<char>, Seq<char>, Seq<char>)>, l: Seq<char>) -> Seq<
    (Seq<char>, Seq<char>, Seq<char>, Seq<char>),
> {
    match line_commit(l) {
        Some(c) => cs.push(c),
        None => cs,
    }
}

/// A line that ended with a line feed, without the carriage return before it.
pub open spec fn strip_cr(l: Seq<char>) -> Seq<char> {
    if l.len() > 0 && l.last() == '\r' {
        l.drop_last()
    } else {
        l
    }
}

/// Reading `s` line by line (`str::lines`): the commits of its finished lines and the
/// line being read.
pub open spec fn log_scan(s: Seq<char>) -> (Seq<(Seq<char>, Seq<char>, Seq<char>, Seq<char>)>, Seq<char>)
    decreases s.len(),
{
    if s.len() == 0 {
        (Seq::empty(), Seq::empty())
    } else {
        let (cs, cur) = log_scan(s.drop_last());
        if s.last() == '\n' {
            (add_commit(cs, strip_cr(cur)), Seq::empty())
        } else {
            (cs, cur.push(s.last()))
        }
    }
}

/// The commits a `git log --pretty=format:%H|%an|%ad|%s` output lists, in order.
pub open spec fn log_commits(text: Seq<char>) -> Seq<(Seq<char>, Seq<char>, Seq<char>, Seq<char>)> {
    add_commit(log_scan(text).0, log_scan(text).1)
}

/// The pieces of `l` between `|` characters.
fn split_bars(l: &[char]) -> (r: Vec<Vec<char>>)
    ensures
        r@.len() == split_on(l@, '|').len(),
        forall|k: int| 0 <= k < r@.len() ==> (#[trigger] r@[k])@ == split_on(l@, '|')[k],
{
    let mut r: Vec<Vec<char>> = Vec::new();
    let mut cur: Vec<char> = Vec::new();
    let mut i: usize = 0;
    proof {
        assert(l@.take(0) =~= Seq::<char>::empty());
    }
    while i < l.len()
        invariant
            i <= l@.len(),
            r@.len() + 1 == split_on(l@.take(i as int), '|').len(),
            forall|k: int| 0 <= k < r@.len() ==> (#[trigger] r@[k])@ == split_on(l@.take(i as int), '|')[k],
            cur@ == split_on(l@.take(i as int), '|').last(),
        decreases l@.len() - i,
    {
        proof {
            assert(l@.take(i + 1).drop_last() =~= l@.take(i as int));
        }
        if l[i] == '|' {
            r.push(cur);
            cur = Vec::new();
        } else {
            cur.push(l[i]);
        }
        i = i + 1;
    }
    proof {
        assert(l@.take(i as int) =~= l@);
    }
    r.push(cur);
    r
}

/// Appends the commit of line `l`, if it has one.
fn push_commit(out: &mut Vec<GitCommitInfo>, l: &[char])
    ensures
        final(out)@.len() == add_commit(commit_texts(old(out)@), l@).len(),
        commit_texts(final(out)@) == add_commit(commit_texts(old(out)@), l@),
{
    let parts = split_bars(l);
    if parts.len() >= 4 {
        let c = GitCommitInfo {
            hash: string_of(parts[0].as_slice()),
            author: string_of(parts[1].as_slice()),
            date: string_of(parts[2].as_slice()),
            message: string_of(parts[3].as_slice()),
        };
        let ghost before = out@;
        out.push(c);
        proof {
            assert(commit_texts(out@) =~= commit_texts(before).push((parts@[0]@, parts@[1]@, parts@[2]@, parts@[3]@)));
        }
    }
}

/// The texts of each commit's fields.
pub open spec fn commit_texts(v: Seq<GitCommitInfo>) -> Seq<(Seq<char>, Seq<char>, Seq<char>, Seq<char>)> {
    v.map_values(|c: GitCommitInfo| (c.hash@, c.author@, c.date@, c.message@))
}

/// The commits of a `git log --pretty=format:%H|%an|%ad|%s` output, one per line with at
/// least four `|`-separated fields.
pub fn parse_git_log(text: &str) -> (r: Vec<GitCommitInfo>)
    ensures
        commit_texts(r@) == log_commits(text@),
{
    let chars = str_chars(text);
    let mut out: Vec<GitCommitInfo> = Vec::new();
    let mut cur: Vec<char> = Vec::new();
    let mut i: usize = 0;
    proof {
        assert(chars@.take(0) =~= Seq::<char>::empty());
        assert(commit_texts(out@) =~= Seq::<(Seq<char>, Seq<char>, Seq<char>, Seq<char>)>::empty());
    }
    while i < chars.len()
        invariant
            i <= chars@.len(),
            chars@ == text@,
            commit_texts(out@) == log_scan(chars@.take(i as int)).0,
            cur@ == log_scan(chars@.take(i as int)).1,
        decreases chars@.len() - i,
    {
        proof {
            assert(chars@.take(i + 1).drop_last() =~= chars@.take(i as int));
        }
        if chars[i] == '\n' {
            let n = cur.len();
            if n > 0 && cur[n - 1] == '\r' {
                let line = vstd::slice::slice_subrange(cur.as_slice(), 0, n - 1);
                proof {
                    assert(line@ =~= cur@.drop_last());
                }
                push_commit(&mut out, line);
            } else {
                push_commit(&mut out, cur.as_slice());
            }
            cur = Vec::new();
        } else {
            cur.push(chars[i]);
        }
        i = i + 1;
    }
    proof {
        assert(chars@.take(i as int) =~= chars@);
    }
    push_commit(&mut out, cur.as_slice());
    out
}

/// The garage directory name of a VIN: trimmed and upper-cased.
pub fn vehicle_dir_name(vin: &str) -> (r: String)
    ensures
        r@ == upper_of(trim_ws(vin@)),
{
    let chars = str_chars(vin);
    let t = trim(chars.as_slice());
    let u = to_upper(t.as_slice());
    string_of(u.as_slice())
}

} // verus!
