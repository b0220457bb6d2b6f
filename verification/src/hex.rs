//! Hexadecimal byte strings as typed on the command line (`"0x1A2B"`, `" 0a0b "`).

use crate::text::{
    byte_substring, parse_fail_text, parse_int, parse_int_radix, push_decimal, push_parse_fail, push_str,
    str_chars, string_of, strip_zero_prefix, trim, trim_ws, zero_prefix_end, decimal, ParseFail,
};
use vstd::prelude::*;
use vstd::string::StringSliceAdditionalSpecFns;
use vstd::utf8::{decode_utf8, encode_utf8, is_char_boundary};

verus! {

/// The text left to decode: trimmed, then leading `"0x"`s, then leading `"0X"`s removed.
pub open spec fn hex_clean(s: Seq<char>) -> Seq<char> {
    strip_zero_prefix(strip_zero_prefix(trim_ws(s), 'x'), 'X')
}

/// Decoding the UTF-8 bytes `b` two bytes at a time from byte `i`: the bytes read, or the
/// index and reason of the first pair that is no hexadecimal byte; `None` where a pair
/// would cut a character in two.
pub open spec fn hex_byte_scan(b: Seq<u8>, i: nat) -> Option<Result<Seq<u8>, (nat, ParseFail)>>
    decreases b.len() - i,
{
    if i + 2 > b.len() {
        Some(Ok(Seq::empty()))
    } else if !(is_char_boundary(b, i as int) && is_char_boundary(b, (i + 2) as int)) {
        None
    } else {
        match parse_int(decode_utf8(b.subrange(i as int, (i + 2) as int)), 16, 255) {
            Err(f) => Some(Err((i, f))),
            Ok(v) => match hex_byte_scan(b, i + 2) {
                Some(Ok(rest)) => Some(Ok(seq![v as u8] + rest)),
                other => other,
            },
        }
    }
}

/// Whether decoding `s` would slice a multi-byte character apart.
pub open spec fn hex_bytes_cut_char(s: Seq<char>) -> bool {
    let b = encode_utf8(hex_clean(s));
    b.len() % 2 == 0 && hex_byte_scan(b, 0) is None
}

/// The message for an input of odd length.
pub open spec fn odd_length_text(s: Seq<char>) -> Seq<char> {
    "Hex string must have an even number of characters: '"@ + s + "'"@
}

/// The message for a pair at byte `i` that is no hexadecimal byte.
pub open spec fn bad_byte_text(i: nat, f: ParseFail) -> Seq<char> {
    "Invalid hex byte at index "@ + decimal(i) + ": "@ + parse_fail_text(f)
}

/// What decoding `s` gives where no character is cut.
pub open spec fn hex_bytes_result(s: Seq<char>) -> Result<Seq<u8>, Seq<char>> {
    let b = encode_utf8(hex_clean(s));
    if b.len() % 2 != 0 {
        Err(odd_length_text(s))
    } else {
        match hex_byte_scan(b, 0) {
            Some(Ok(bytes)) => Ok(bytes),
            Some(Err((i, f))) => Err(bad_byte_text(i, f)),
            None => Err(Seq::empty()),
        }
    }
}

/// `r` holds the value of `hex_bytes_result(s)`.
pub open spec fn hex_result_is(r: Result<Vec<u8>, String>, s: Seq<char>) -> bool {
    match (r, hex_bytes_result(s)) {
        (Ok(v), Ok(w)) => v@ == w,
        (Err(m), Err(w)) => m@ == w,
        _ => false,
    }
}

/// The cleaned text of `s` as a `String`.
fn clean_string(s: &str) -> (r: String)
    ensures
        r@ == hex_clean(s@),
{
    let chars = str_chars(s);
    let t = trim(chars.as_slice());
    let a = zero_prefix_end(t.as_slice(), 0, 'x');
    let b = zero_prefix_end(t.as_slice(), a, 'X');
    proof {
        assert(t@.skip(0) =~= t@);
    }
    let rest = vstd::slice::slice_subrange(t.as_slice(), b, t.len());
    proof {
        assert(rest@ =~= t@.skip(b as int));
    }
    string_of(rest)
}

/// Decodes a hexadecimal byte string; `None` exactly where a two-byte slice of the cleaned
/// text would cut a multi-byte character (where `parse_hex_bytes` may not be called).
pub fn try_parse_hex_bytes(s: &str) -> (r: Option<Result<Vec<u8>, String>>)
    ensures
        r is None <==> hex_bytes_cut_char(s@),
        r matches Some(res) ==> hex_result_is(res, s@),
{
    let clean = clean_string(s);
    let cs = clean.as_str();
    let n = cs.as_bytes().len();
    let ghost b = encode_utf8(clean@);
    if n % 2 != 0 {
        let mut msg = String::new();
        push_str(&mut msg, "Hex string must have an even number of characters: '");
        push_str(&mut msg, s);
        push_str(&mut msg, "'");
        proof {
            assert(msg@ =~= odd_length_text(s@));
        }
        return Some(Err(msg));
    }
    let mut out: Vec<u8> = Vec::new();
    let mut i: usize = 0;
    proof {
        vstd::utf8::encode_utf8_valid_utf8(clean@);
    }
    while i < n
        invariant
            n == b.len(),
            b == encode_utf8(clean@),
            cs@ == clean@,
            clean@ == hex_clean(s@),
            n % 2 == 0,
            i % 2 == 0,
            i <= n,
            hex_byte_scan(b, 0) == match hex_byte_scan(b, i as nat) {
                Some(Ok(rest)) => Some(Ok(out@ + rest)),
                other => other,
            },
        decreases n - i,
    {
        if !(cs.is_char_boundary(i) && cs.is_char_boundary(i + 2)) {
            return None;
        }
        let pair = byte_substring(cs, i, i + 2);
        match parse_int_radix(pair.as_slice(), 16, 255) {
            Err(f) => {
                let mut msg = String::new();
                push_str(&mut msg, "Invalid hex byte at index ");
                push_decimal(&mut msg, i as u64);
                push_str(&mut msg, ": ");
                push_parse_fail(&mut msg, f);
                proof {
                    assert(msg@ =~= bad_byte_text(i as nat, f));
                }
                return Some(Err(msg));
            },
            Ok(v) => {
                let ghost old_out = out@;
                out.push(v as u8);
                proof {
                    assert(i + 2 <= n);
                    let p = decode_utf8(b.subrange(i as int, (i + 2) as int));
                    assert(parse_int(p, 16, 255) == Ok::<nat, ParseFail>(v as nat));
                    assert(hex_byte_scan(b, i as nat) == match hex_byte_scan(b, (i + 2) as nat) {
                        Some(Ok(rest)) => Some(Ok(seq![v as u8] + rest)),
                        other => other,
                    });
                    match hex_byte_scan(b, (i + 2) as nat) {
                        Some(Ok(rest)) => {
                            assert(old_out + (seq![v as u8] + rest) =~= out@ + rest);
                        },
                        _ => {},
                    }
                }
            },
        }
        i = i + 2;
    }
    proof {
        assert(out@ + Seq::<u8>::empty() =~= out@);
    }
    Some(Ok(out))
}

/// Decodes a hexadecimal byte string such as `"0x1A2B"` into its bytes: surrounding white
/// space and leading `0x`/`0X` are ignored, and the error names the first bad pair.
pub fn parse_hex_bytes(s: &str) -> (r: Result<Vec<u8>, String>)
    requires
        !hex_bytes_cut_char(s@),
    ensures
        hex_result_is(r, s@),
{
    match try_parse_hex_bytes(s) {
        Some(res) => res,
        None => Err(String::new()),
    }
}

} // verus!
