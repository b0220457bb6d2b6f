//! ASCII armor for community mods: a copy-paste friendly text block that survives
//! forums, chat and pastebins (markdown fences, stray white space, CRLF line ends).

use base64::Engine;
use crate::error::SterngateError;
use crate::modpack::SterngateMod;
use crate::text::{
    hex, hex_padded, is_infix, is_prefix, join_with, occurs_at, push_hex_padded, push_joined, push_str, str_chars,
    string_of, texts, trim, trim_ws, is_unicode_whitespace,
};
use vstd::prelude::*;

verus! {

/// First line of an armored block.
pub const ARMOR_HEADER: &'static str = "-----BEGIN STERNGATE COMMUNITY MOD-----";

/// Last line of an armored block.
pub const ARMOR_FOOTER: &'static str = "-----END STERNGATE COMMUNITY MOD-----";

/// Text of `ARMOR_HEADER`.
pub open spec fn header_text() -> Seq<char> {
    "-----BEGIN STERNGATE COMMUNITY MOD-----"@
}

/// Text of `ARMOR_FOOTER`.
pub open spec fn footer_text() -> Seq<char> {
    "-----END STERNGATE COMMUNITY MOD-----"@
}

/// Name for the standard (RFC 4648, padded) base64 text of some bytes, as
/// `base64::engine::general_purpose::STANDARD.encode` produces it.
pub uninterp spec fn base64_text(bytes: Seq<u8>) -> Seq<char>;

/// Name for what `STANDARD.decode` gives for a text: the bytes, or the message of its
/// `DecodeError`.
pub uninterp spec fn base64_decoding(text: Seq<char>) -> Result<Seq<u8>, Seq<char>>;

/// A character of the standard base64 alphabet, or the `=` padding.
pub open spec fn base64_char(c: char) -> bool {
    ('A' <= c <= 'Z') || ('a' <= c <= 'z') || ('0' <= c <= '9') || c == '+' || c == '/' || c == '='
}

/// `STANDARD.encode`: the base64 text of `bytes`, made of alphabet and padding characters,
/// four characters per started group of three bytes.
#[verifier::external_body]
fn base64_encode(bytes: &[u8]) -> (r: String)
    ensures
        r@ == base64_text(bytes@),
        forall|i: int| 0 <= i < r@.len() ==> base64_char(#[trigger] r@[i]),
        r@.len() == 4 * ((bytes@.len() + 2) / 3),
{
    base64::engine::general_purpose::STANDARD.encode(bytes)
}

/// `STANDARD.decode`: the bytes a base64 text stands for, or the `DecodeError` message;
/// a text that `STANDARD.encode` produced from some bytes decodes to those bytes.
#[verifier::external_body]
fn base64_decode(text: &str) -> (r: Result<Vec<u8>, String>)
    ensures
        r is Ok ==> base64_decoding(text@) == Ok::<Seq<u8>, Seq<char>>(r->Ok_0@),
        r is Err ==> base64_decoding(text@) == Err::<Seq<u8>, Seq<char>>(r->Err_0@),
        r is Ok ==> forall|b: Seq<u8>| text@ == #[trigger] base64_text(b) ==> r->Ok_0@ == b,
        r is Err ==> forall|b: Seq<u8>| text@ != #[trigger] base64_text(b),

{
    match base64::engine::general_purpose::STANDARD.decode(text) {
        Ok(v) => Ok(v),
        Err(e) => Err(e.to_string()),
    }
}

/// What an armored (or plain JSON) text holds.
pub enum ArmorPayload {
    /// The text itself is a JSON package (trimmed).
    Json(String),
    /// The base64-decoded package bytes of an armored block.
    Encoded(Vec<u8>),
}

/// Spec counterpart of `ArmorPayload`.
pub enum ArmorContent {
    Json(Seq<char>),
    Encoded(Seq<u8>),
}

impl ArmorPayload {
    pub open spec fn content(&self) -> ArmorContent {
        match self {
            ArmorPayload::Json(s) => ArmorContent::Json(s@),
            ArmorPayload::Encoded(b) => ArmorContent::Encoded(b@),
        }
    }
}

/// `s` with every leading copy of `p` removed (`str::trim_start_matches`).
pub open spec fn strip_prefix_run(s: Seq<char>, p: Seq<char>) -> Seq<char>
    decreases s.len(),
{
    if p.len() > 0 && is_prefix(p, s) {
        strip_prefix_run(s.skip(p.len() as int), p)
    } else {
        s
    }
}

/// `s` with every trailing copy of `p` removed (`str::trim_end_matches`).
pub open spec fn strip_suffix_run(s: Seq<char>, p: Seq<char>) -> Seq<char>
    decreases s.len(),
{
    if p.len() > 0 && p.len() <= s.len() && s.subrange(s.len() - p.len(), s.len() as int) == p {
        strip_suffix_run(s.take(s.len() - p.len()), p)
    } else {
        s
    }
}

/// The text left once markdown code fences are taken off.
pub open spec fn unfenced(s: Seq<char>) -> Seq<char> {
    trim_ws(strip_suffix_run(strip_prefix_run(strip_prefix_run(s, "```text"@), "```"@), "```"@))
}

/// First position from `i` on where `needle` occurs in `hay`.
pub open spec fn first_occurrence_from(hay: Seq<char>, needle: Seq<char>, i: nat) -> Option<nat>
    decreases hay.len() + 1 - i,
{
    if i + needle.len() > hay.len() {
        None
    } else if occurs_at(hay, needle, i as int) {
        Some(i)
    } else {
        first_occurrence_from(hay, needle, i + 1)
    }
}

/// First position where `needle` occurs in `hay` (`str::find`, counted in characters).
pub open spec fn first_occurrence(hay: Seq<char>, needle: Seq<char>) -> Option<nat> {
    first_occurrence_from(hay, needle, 0)
}

/// State of reading the lines of an armor body: the base64 collected so far, whether
/// the `Key: value` header lines are over, whether one was seen, and the line being read.
pub struct BodyScan {
    pub acc: Seq<char>,
    pub past_headers: bool,
    pub seen_header: bool,
    pub line: Seq<char>,
}

/// The state before any character.
pub open spec fn body_start() -> BodyScan {
    BodyScan { acc: Seq::empty(), past_headers: false, seen_header: false, line: Seq::empty() }
}

/// Handles one finished line: blank lines end the headers once one was seen, lines
/// with `": "` before that are headers, everything else is base64 (trimmed).
pub open spec fn end_line(st: BodyScan) -> BodyScan {
    let t = trim_ws(st.line);
    if t.len() == 0 {
        BodyScan { past_headers: st.past_headers || st.seen_header, line: Seq::empty(), ..st }
    } else if !st.past_headers && is_infix(": "@, t) {
        BodyScan { seen_header: true, line: Seq::empty(), ..st }
    } else {
        BodyScan { acc: st.acc + t, past_headers: true, line: Seq::empty(), ..st }
    }
}

/// Reads one character.
pub open spec fn body_step(st: BodyScan, c: char) -> BodyScan {
    if c == '\n' {
        end_line(st)
    } else {
        BodyScan { line: st.line.push(c), ..st }
    }
}

/// Reads the characters of `s` from state `st`.
pub open spec fn body_from(st: BodyScan, s: Seq<char>) -> BodyScan
    decreases s.len(),
{
    if s.len() == 0 {
        st
    } else {
        body_from(body_step(st, s[0]), s.drop_first())
    }
}

/// The base64 text an armor body carries: every line read, the last one too.
pub open spec fn body_base64(body: Seq<char>) -> Seq<char> {
    end_line(body_from(body_start(), body)).acc
}

/// What the armored block in the unfenced text `w` gives: `None` where the footer starts
/// inside the header, so the body cannot be sliced; else the payload or the error message.
pub open spec fn armor_block_outcome(w: Seq<char>) -> Option<Result<ArmorContent, Seq<char>>> {
    match first_occurrence(w, header_text()) {
        None => Some(Err("Missing '-----BEGIN STERNGATE COMMUNITY MOD-----' header"@)),
        Some(s) => match first_occurrence(w, footer_text()) {
            None => Some(Err("Missing '-----END STERNGATE COMMUNITY MOD-----' footer"@)),
            Some(e) => if e <= s {
                Some(Err("Corrupted armor delimiters: footer precedes header"@))
            } else if e < s + header_text().len() {
                None
            } else {
                let b64 = body_base64(w.subrange((s + header_text().len()) as int, e as int));
                if b64.len() == 0 {
                    Some(Err("Empty mod payload inside armor block"@))
                } else {
                    match base64_decoding(b64) {
                        Ok(bytes) => Some(Ok(ArmorContent::Encoded(bytes))),
                        Err(m) => Some(Err("Base64 decoding failed for mod payload: "@ + m)),
                    }
                }
            },
        },
    }
}

/// What decoding an armored text (or a plain JSON package) gives; `None` where the
/// original slicing would fail.
pub open spec fn armor_outcome(input: Seq<char>) -> Option<Result<ArmorContent, Seq<char>>> {
    let clean = trim_ws(input);
    if clean.len() > 0 && clean[0] == '{' && clean.last() == '}' {
        Some(Ok(ArmorContent::Json(clean)))
    } else {
        armor_block_outcome(unfenced(clean))
    }
}

/// `r` is what `armor_outcome` gives, with errors reported as profile errors.
pub open spec fn armor_result_is(r: Result<ArmorPayload, SterngateError>, o: Result<ArmorContent, Seq<char>>) -> bool {
    match (r, o) {
        (Ok(p), Ok(c)) => p.content() == c,
        (Err(SterngateError::ProfileError(m)), Err(t)) => m@ == t,
        _ => false,
    }
}

proof fn lemma_body_from_concat(st: BodyScan, a: Seq<char>, b: Seq<char>)
    ensures
        body_from(st, a + b) == body_from(body_from(st, a), b),
    decreases a.len(),
{
    if a.len() > 0 {
        assert((a + b).drop_first() =~= a.drop_first() + b);
        lemma_body_from_concat(body_step(st, a[0]), a.drop_first(), b);
    } else {
        assert(a + b =~= b);
    }
}

proof fn lemma_body_from_push(st: BodyScan, a: Seq<char>, c: char)
    ensures
        body_from(st, a.push(c)) == body_step(body_from(st, a), c),
{
    lemma_body_from_concat(st, a, seq![c]);
    assert(a.push(c) =~= a + seq![c]);
    let s2 = body_from(st, a);
    assert(seq![c].drop_first() =~= Seq::<char>::empty());
    assert(body_from(s2, seq![c]) == body_from(body_step(s2, c), Seq::<char>::empty()));
}

/// `s[at..]` with every leading copy of `p` skipped: where the rest starts.
fn prefix_run_end(s: &[char], at: usize, p: &[char]) -> (r: usize)
    requires
        at <= s@.len(),
        p@.len() > 0,
    ensures
        at <= r <= s@.len(),
        strip_prefix_run(s@.skip(at as int), p@) == s@.skip(r as int),
    decreases s@.len() - at,
{
    let rest = vstd::slice::slice_subrange(s, at, s.len());
    proof {
        assert(rest@ =~= s@.skip(at as int));
    }
    if p.len() <= rest.len() && crate::text::starts_with_chars(rest, p) {
        proof {
            assert(s@.skip(at as int).skip(p@.len() as int) =~= s@.skip(at + p@.len()));
        }
        prefix_run_end(s, at + p.len(), p)
    } else {
        at
    }
}

/// Length of `s[..to]` once every trailing copy of `p` is removed.
fn suffix_run_start(s: &[char], to: usize, p: &[char]) -> (r: usize)
    requires
        to <= s@.len(),
        p@.len() > 0,
    ensures
        r <= to,
        strip_suffix_run(s@.take(to as int), p@) == s@.take(r as int),
    decreases to,
{
    if p.len() <= to {
        let tail = vstd::slice::slice_subrange(s, to - p.len(), to);
        let same = crate::text::starts_with_chars(tail, p);
        proof {
            assert(tail@ =~= s@.take(to as int).subrange(to - p@.len(), to as int));
            if same {
                assert(tail@.subrange(0, p@.len() as int) =~= tail@);
            }
        }
        if same {
            proof {
                assert(s@.take(to as int).take(to - p@.len()) =~= s@.take(to - p@.len()));
            }
            return suffix_run_start(s, to - p.len(), p);
        }
        proof {
            assert(tail@.subrange(0, p@.len() as int) =~= tail@);
        }
    }
    to
}

/// First position where `needle` occurs in `hay`.
fn find_chars(hay: &[char], needle: &[char]) -> (r: Option<usize>)
    ensures
        r is None <==> first_occurrence(hay@, needle@) is None,
        r is Some ==> first_occurrence(hay@, needle@) == Some(r->Some_0 as nat),
        r is Some ==> r->Some_0 + needle@.len() <= hay@.len(),
{
    if needle.len() > hay.len() {
        return None;
    }
    let last = hay.len() - needle.len();
    let mut i: usize = 0;
    loop
        invariant
            needle@.len() <= hay@.len(),
            last == hay@.len() - needle@.len(),
            i <= last,
            first_occurrence(hay@, needle@) == first_occurrence_from(hay@, needle@, i as nat),
        decreases last - i,
    {
        let sub = vstd::slice::slice_subrange(hay, i, hay.len());
        let here = crate::text::starts_with_chars(sub, needle);
        proof {
            assert(sub@ =~= hay@.skip(i as int));
            if here {
                assert(hay@.subrange(i as int, i + needle@.len()) =~= sub@.subrange(0, needle@.len() as int));
            } else {
                if occurs_at(hay@, needle@, i as int) {
                    assert(hay@.subrange(i as int, i + needle@.len()) =~= sub@.subrange(0, needle@.len() as int));
                }
            }
        }
        if here {
            return Some(i);
        }
        if i == last {
            proof {
                assert(first_occurrence_from(hay@, needle@, (i + 1) as nat) is None);
            }
            return None;
        }
        i = i + 1;
    }
}

/// Handles one finished line of an armor body (`end_line`).
fn finish_line(acc: &mut Vec<char>, line: &Vec<char>, past_headers: &mut bool, seen_header: &mut bool)
    ensures
        end_line(BodyScan { acc: old(acc)@, past_headers: *old(past_headers), seen_header: *old(seen_header), line: line@ })
            == (BodyScan { acc: final(acc)@, past_headers: *final(past_headers), seen_header: *final(seen_header), line: Seq::empty() }),
{
    let sep: Vec<char> = vec![':', ' '];
    proof {
        reveal_strlit(": ");
        assert(sep@ =~= ": "@);
    }
    let t = trim(line.as_slice());
    if t.len() == 0 {
        if *seen_header {
            *past_headers = true;
        }
    } else if !*past_headers && crate::text::contains_chars(t.as_slice(), sep.as_slice()) {
        *seen_header = true;
    } else {
        let mut k: usize = 0;
        let ghost acc0 = acc@;
        while k < t.len()
            invariant
                k <= t@.len(),
                acc@ == acc0 + t@.take(k as int),
            decreases t@.len() - k,
        {
            acc.push(t[k]);
            proof {
                assert(acc0 + t@.take(k + 1) =~= (acc0 + t@.take(k as int)).push(t@[k as int]));
            }
            k = k + 1;
        }
        proof {
            assert(t@.take(t@.len() as int) =~= t@);
        }
        *past_headers = true;
    }
}

/// Reads the lines of an armor body and returns the base64 text they carry.
fn collect_base64(body: &[char]) -> (r: Vec<char>)
    ensures
        r@ == body_base64(body@),
{
    let mut acc: Vec<char> = Vec::new();
    let mut line: Vec<char> = Vec::new();
    let mut past_headers = false;
    let mut seen_header = false;
    let mut i: usize = 0;
    proof {
        assert(body@.take(0) =~= Seq::<char>::empty());
    }
    while i < body.len()
        invariant
            i <= body@.len(),
            body_from(body_start(), body@.take(i as int)) == (BodyScan {
                acc: acc@,
                past_headers,
                seen_header,
                line: line@,
            }),
        decreases body@.len() - i,
    {
        proof {
            lemma_body_from_push(body_start(), body@.take(i as int), body@[i as int]);
            assert(body@.take(i + 1) =~= body@.take(i as int).push(body@[i as int]));
        }
        if body[i] == '\n' {
            finish_line(&mut acc, &line, &mut past_headers, &mut seen_header);
            line = Vec::new();
        } else {
            line.push(body[i]);
        }
        i = i + 1;
    }
    proof {
        assert(body@.take(i as int) =~= body@);
    }
    finish_line(&mut acc, &line, &mut past_headers, &mut seen_header);
    acc
}

/// The text left once markdown fences and white space are taken off.
fn unfence(clean: &[char]) -> (r: Vec<char>)
    ensures
        r@ == unfenced(clean@),
{
    let fence_text: Vec<char> = vec!['`', '`', '`', 't', 'e', 'x', 't'];
    let fence: Vec<char> = vec!['`', '`', '`'];
    proof {
        reveal_strlit("```text");
        reveal_strlit("```");
        assert(fence_text@ =~= "```text"@);
        assert(fence@ =~= "```"@);
        assert(clean@.skip(0) =~= clean@);
    }
    let a = prefix_run_end(clean, 0, fence_text.as_slice());
    let b = prefix_run_end(clean, a, fence.as_slice());
    let rest = vstd::slice::slice_subrange(clean, b, clean.len());
    proof {
        assert(rest@ =~= clean@.skip(b as int));
        assert(rest@.take(rest@.len() as int) =~= rest@);
    }
    let c = suffix_run_start(rest, rest.len(), fence.as_slice());
    let kept = vstd::slice::slice_subrange(rest, 0, c);
    proof {
        assert(kept@ =~= rest@.take(c as int));
    }
    trim(kept)
}

fn profile_error(text: &str) -> (r: SterngateError)
    ensures
        r matches SterngateError::ProfileError(m) && m@ == text@,
{
    let mut m = String::new();
    push_str(&mut m, text);
    SterngateError::ProfileError(m)
}

/// Reads the armored block in the unfenced text `w`.
fn decode_block(w: &[char]) -> (r: Option<Result<ArmorPayload, SterngateError>>)
    ensures
        r is None <==> armor_block_outcome(w@) is None,
        (r is Some && armor_block_outcome(w@) is Some) ==> armor_result_is(r->Some_0, armor_block_outcome(w@)->Some_0),
{
    let header = str_chars(ARMOR_HEADER);
    let footer = str_chars(ARMOR_FOOTER);
    proof {
        reveal_strlit("-----BEGIN STERNGATE COMMUNITY MOD-----");
        reveal_strlit("-----END STERNGATE COMMUNITY MOD-----");
        assert(header@ == header_text());
        assert(footer@ == footer_text());
    }
    let start = match find_chars(w, header.as_slice()) {
        Some(s) => s,
        None => {
            return Some(Err(profile_error("Missing '-----BEGIN STERNGATE COMMUNITY MOD-----' header")));
        },
    };
    let end = match find_chars(w, footer.as_slice()) {
        Some(e) => e,
        None => {
            return Some(Err(profile_error("Missing '-----END STERNGATE COMMUNITY MOD-----' footer")));
        },
    };
    if end <= start {
        return Some(Err(profile_error("Corrupted armor delimiters: footer precedes header")));
    }
    if end - start < header.len() {
        return None;
    }
    let body = vstd::slice::slice_subrange(w, start + header.len(), end);
    let b64 = collect_base64(body);
    if b64.len() == 0 {
        return Some(Err(profile_error("Empty mod payload inside armor block")));
    }
    let text = string_of(b64.as_slice());
    match base64_decode(text.as_str()) {
        Ok(bytes) => Some(Ok(ArmorPayload::Encoded(bytes))),
        Err(e) => {
            let mut m = String::new();
            push_str(&mut m, "Base64 decoding failed for mod payload: ");
            push_str(&mut m, e.as_str());
            Some(Err(SterngateError::ProfileError(m)))
        },
    }
}

/// Reads an armored block, or a plain JSON package: `None` exactly where the footer
/// starts inside the header text (where `decode_armor_payload` may not be called).
pub fn try_decode_armor_payload(input: &str) -> (r: Option<Result<ArmorPayload, SterngateError>>)
    ensures
        r is None <==> armor_outcome(input@) is None,
        (r is Some && armor_outcome(input@) is Some) ==> armor_result_is(r->Some_0, armor_outcome(input@)->Some_0),
{
    let chars = str_chars(input);
    let clean = trim(chars.as_slice());
    let n = clean.len();
    if n > 0 && clean[0] == '{' && clean[n - 1] == '}' {
        return Some(Ok(ArmorPayload::Json(string_of(clean.as_slice()))));
    }
    let w = unfence(clean.as_slice());
    decode_block(w.as_slice())
}

/// Reads an armored block (or plain JSON package): markdown fences and white space are
/// ignored, the `Key: value` header lines up to the first blank line are skipped, and
/// the remaining lines are joined and base64-decoded.
pub fn decode_armor_payload(input: &str) -> (r: Result<ArmorPayload, SterngateError>)
    requires
        armor_outcome(input@) is Some,
    ensures
        armor_result_is(r, armor_outcome(input@)->Some_0),
{
    match try_decode_armor_payload(input) {
        Some(x) => x,
        None => Err(SterngateError::ProfileError(String::new())),
    }
}

/// The base64 text cut into lines of 64 characters, each ended by a newline.
pub open spec fn armor_lines(b64: Seq<char>) -> Seq<char>
    decreases b64.len(),
{
    if b64.len() == 0 {
        Seq::empty()
    } else if b64.len() <= 64 {
        b64.push('\n')
    } else {
        b64.take(64).push('\n') + armor_lines(b64.skip(64))
    }
}

/// The `Key: value` lines that describe a package in its armor.
pub open spec fn armor_headers(m: SterngateMod) -> Seq<char> {
    "Mod-ID: "@ + m.metadata.mod_id@ + "\n"@ + "Name: "@ + m.metadata.name@ + "\n"@ + "Author: "@
        + m.metadata.author@ + "\n"@ + "Target-Chassis: "@ + join_with(texts(m.target.chassis@), ", "@)
        + "\n"@ + "Target-ECU: "@ + m.target.ecu_name@ + " (0x"@ + hex_padded(m.target.tx_id as nat, 3)
        + ")\n"@ + "CRC32: "@ + hex_padded(m.integrity.payload_crc32 as nat, 8) + "\n"@ + "SHA256: "@
        + m.integrity.payload_sha256@ + "\n"@ + "FEC: "@ + m.integrity.fec_scheme@ + "\n\n"@
}

/// The armored text of a package whose serialized form is `json`.
pub open spec fn armor_text(m: SterngateMod, json: Seq<u8>) -> Seq<char> {
    header_text() + "\n"@ + armor_headers(m) + armor_lines(base64_text(json)) + footer_text() + "\n"@
}

/// Appends `b64` cut into 64-character lines.
fn push_armor_lines(out: &mut String, b64: &[char])
    ensures
        final(out)@ == old(out)@ + armor_lines(b64@),
    decreases b64@.len(),
{
    if b64.len() == 0 {
        return;
    }
    let n = if b64.len() <= 64 {
        b64.len()
    } else {
        64
    };
    let line = vstd::slice::slice_subrange(b64, 0, n);
    push_str(out, string_of(line).as_str());
    push_str(out, "\n");
    proof {
        reveal_strlit("\n");
        assert(line@ =~= b64@.take(n as int));
        if b64@.len() <= 64 {
            assert(b64@.take(n as int) =~= b64@);
        }
    }
    if b64.len() > 64 {
        let rest = vstd::slice::slice_subrange(b64, 64, b64.len());
        proof {
            assert(rest@ =~= b64@.skip(64));
        }
        let ghost mid = out@;
        push_armor_lines(out, rest);
        proof {
            assert(mid + armor_lines(rest@) =~= old(out)@ + armor_lines(b64@)) by {
                assert(armor_lines(b64@) == b64@.take(64).push('\n') + armor_lines(b64@.skip(64)));
            }
        }
    } else {
        proof {
            assert(armor_lines(b64@) == b64@.push('\n'));
        }
    }
}

/// Encodes a package into a copy-paste friendly armored text block: header line,
/// `Key: value` description lines, a blank line, the base64 of the package's serialized
/// form `json` in 64-character lines, and the footer line.
///
/// Reading the text back (`decode_armor_payload`) hands the base64 decoder exactly the
/// base64 text written here, for every non-empty `json` and every package whose
/// description lines read back (`armor_safe`).
pub fn encode_to_armor(modpack: &SterngateMod, json: &[u8]) -> (r: String)
    ensures
        r@ == armor_text(*modpack, json@),
        armor_safe(*modpack) && json@.len() > 0 ==> armor_outcome(r@) == Some(base64_outcome(base64_text(json@))),
{
    let b64 = base64_encode(json);
    let b64_chars = str_chars(b64.as_str());
    let mut out = String::new();
    push_str(&mut out, ARMOR_HEADER);
    push_str(&mut out, "\n");
    push_str(&mut out, "Mod-ID: ");
    push_str(&mut out, modpack.metadata.mod_id.as_str());
    push_str(&mut out, "\n");
    push_str(&mut out, "Name: ");
    push_str(&mut out, modpack.metadata.name.as_str());
    push_str(&mut out, "\n");
    push_str(&mut out, "Author: ");
    push_str(&mut out, modpack.metadata.author.as_str());
    push_str(&mut out, "\n");
    push_str(&mut out, "Target-Chassis: ");
    push_joined(&mut out, modpack.target.chassis.as_slice(), ", ");
    push_str(&mut out, "\n");
    push_str(&mut out, "Target-ECU: ");
    push_str(&mut out, modpack.target.ecu_name.as_str());
    push_str(&mut out, " (0x");
    push_hex_padded(&mut out, modpack.target.tx_id as u64, 3);
    push_str(&mut out, ")\n");
    push_str(&mut out, "CRC32: ");
    push_hex_padded(&mut out, modpack.integrity.payload_crc32 as u64, 8);
    push_str(&mut out, "\n");
    push_str(&mut out, "SHA256: ");
    push_str(&mut out, modpack.integrity.payload_sha256.as_str());
    push_str(&mut out, "\n");
    push_str(&mut out, "FEC: ");
    push_str(&mut out, modpack.integrity.fec_scheme.as_str());
    push_str(&mut out, "\n\n");
    let ghost before_lines = out@;
    push_armor_lines(&mut out, b64_chars.as_slice());
    push_str(&mut out, ARMOR_FOOTER);
    push_str(&mut out, "\n");
    proof {
        reveal_strlit("-----BEGIN STERNGATE COMMUNITY MOD-----");
        reveal_strlit("-----END STERNGATE COMMUNITY MOD-----");
        assert(before_lines =~= header_text() + "\n"@ + armor_headers(*modpack));
        assert(out@ =~= armor_text(*modpack, json@));
        if armor_safe(*modpack) && json@.len() > 0 {
            assert(b64_chars@.len() > 0);
            lemma_armor_readback(*modpack, b64_chars@);
        }
    }
    out
}

/// `c` is no white space (as `str::trim` counts it).
pub open spec fn no_ws(s: Seq<char>) -> bool {
    forall|i: int| 0 <= i < s.len() ==> !is_unicode_whitespace(#[trigger] s[i])
}

/// `s` holds no line feed.
pub open spec fn single_line(s: Seq<char>) -> bool {
    forall|i: int| 0 <= i < s.len() ==> #[trigger] s[i] != '\n'
}

/// `s` holds some character that is not white space.
pub open spec fn non_blank(s: Seq<char>) -> bool {
    exists|i: int| 0 <= i < s.len() && !is_unicode_whitespace(#[trigger] s[i])
}

proof fn lemma_body_no_newline(st: BodyScan, l: Seq<char>)
    requires
        single_line(l),
    ensures
        body_from(st, l) == (BodyScan { line: st.line + l, ..st }),
    decreases l.len(),
{
    if l.len() == 0 {
        assert(st.line + l =~= st.line);
    } else {
        let st1 = body_step(st, l[0]);
        assert(st1 == (BodyScan { line: st.line.push(l[0]), ..st }));
        assert(single_line(l.drop_first()));
        lemma_body_no_newline(st1, l.drop_first());
        assert(st.line.push(l[0]) + l.drop_first() =~= st.line + l);
    }
}

proof fn lemma_body_line(st: BodyScan, l: Seq<char>)
    requires
        single_line(l),
        st.line.len() == 0,
    ensures
        body_from(st, l.push('\n')) == end_line(BodyScan { line: l, ..st }),
{
    lemma_body_from_push(st, l, '\n');
    lemma_body_no_newline(st, l);
    assert(st.line + l =~= l);
}

proof fn lemma_trim_no_ws(s: Seq<char>)
    requires
        no_ws(s),
    ensures
        trim_ws(s) == s,
{
    if s.len() > 0 {
        assert(!is_unicode_whitespace(s[0]));
        assert(!is_unicode_whitespace(s[s.len() - 1]));
    }
}

/// Trimming keeps a `": "` at `m - 2` when the line starts with no white space and has
/// some other character at or after `m`.
proof fn lemma_trim_keeps_colon(s: Seq<char>, m: int, k: int)
    requires
        2 <= m <= k < s.len(),
        !is_unicode_whitespace(s[0]),
        !is_unicode_whitespace(s[k]),
        s[m - 2] == ':',
        s[m - 1] == ' ',
    ensures
        trim_ws(s).len() > 0,
        is_infix(": "@, trim_ws(s)),
    decreases s.len(),
{
    reveal_strlit(": ");
    if is_unicode_whitespace(s.last()) {
        lemma_trim_keeps_colon(s.drop_last(), m, k);
    } else {
        assert(s.subrange(m - 2, m) =~= ": "@);
        assert(occurs_at(s, ": "@, m - 2));
    }
}

/// The lines of `ls`, each ended by a line feed.
pub open spec fn lines_text(ls: Seq<Seq<char>>) -> Seq<char>
    decreases ls.len(),
{
    if ls.len() == 0 {
        Seq::empty()
    } else {
        ls[0].push('\n') + lines_text(ls.drop_first())
    }
}

/// A description line: one line that reads as `Key: value` once trimmed.
pub open spec fn description_line(l: Seq<char>) -> bool {
    single_line(l) && trim_ws(l).len() > 0 && is_infix(": "@, trim_ws(l))
}

proof fn lemma_body_descriptions(st: BodyScan, ls: Seq<Seq<char>>)
    requires
        st.line.len() == 0,
        !st.past_headers,
        forall|i: int| 0 <= i < ls.len() ==> description_line(#[trigger] ls[i]),
    ensures
        body_from(st, lines_text(ls)) == (BodyScan { seen_header: st.seen_header || ls.len() > 0, ..st }),
    decreases ls.len(),
{
    if ls.len() == 0 {
    } else {
        assert(description_line(ls[0]));
        lemma_body_from_concat(st, ls[0].push('\n'), lines_text(ls.drop_first()));
        lemma_body_line(st, ls[0]);
        let st1 = BodyScan { seen_header: true, ..st };
        assert(st.line =~= Seq::<char>::empty());
        assert(end_line(BodyScan { line: ls[0], ..st }) == st1);
        assert forall|i: int| 0 <= i < ls.drop_first().len() implies description_line(#[trigger] ls.drop_first()[i]) by {
            assert(ls.drop_first()[i] == ls[i + 1]);
        }
        lemma_body_descriptions(st1, ls.drop_first());
    }
}

proof fn lemma_base64_no_ws(c: char)
    requires
        base64_char(c),
    ensures
        !is_unicode_whitespace(c),
        c != '\n',
        c != ' ',
{
}

proof fn lemma_body_base64_lines(st: BodyScan, b: Seq<char>)
    requires
        st.line.len() == 0,
        st.past_headers,
        forall|i: int| 0 <= i < b.len() ==> base64_char(#[trigger] b[i]),
    ensures
        body_from(st, armor_lines(b)) == (BodyScan { acc: st.acc + b, ..st }),
    decreases b.len(),
{
    if b.len() == 0 {
        assert(st.acc + b =~= st.acc);
    } else {
        let c = if b.len() <= 64 { b } else { b.take(64) };
        assert forall|i: int| 0 <= i < c.len() implies !is_unicode_whitespace(#[trigger] c[i]) && c[i] != '\n' by {
            lemma_base64_no_ws(b[i]);
        }
        assert(single_line(c));
        lemma_trim_no_ws(c);
        lemma_body_line(st, c);
        let st1 = BodyScan { acc: st.acc + c, ..st };
        assert(st.line =~= Seq::<char>::empty());
        assert(end_line(BodyScan { line: c, ..st }) == st1);
        if b.len() <= 64 {
            assert(armor_lines(b) == b.push('\n'));
        } else {
            assert(armor_lines(b) == b.take(64).push('\n') + armor_lines(b.skip(64)));
            lemma_body_from_concat(st, c.push('\n'), armor_lines(b.skip(64)));
            assert forall|i: int| 0 <= i < b.skip(64).len() implies base64_char(#[trigger] b.skip(64)[i]) by {
                assert(b.skip(64)[i] == b[i + 64]);
            }
            lemma_body_base64_lines(st1, b.skip(64));
            assert(st.acc + c + b.skip(64) =~= st.acc + b);
        }
    }
}

/// The description lines of a package's armor, in order.
pub open spec fn description_lines(m: SterngateMod) -> Seq<Seq<char>> {
    seq![
        "Mod-ID: "@ + m.metadata.mod_id@,
        "Name: "@ + m.metadata.name@,
        "Author: "@ + m.metadata.author@,
        "Target-Chassis: "@ + join_with(texts(m.target.chassis@), ", "@),
        "Target-ECU: "@ + m.target.ecu_name@ + " (0x"@ + hex_padded(m.target.tx_id as nat, 3) + ")"@,
        "CRC32: "@ + hex_padded(m.integrity.payload_crc32 as nat, 8),
        "SHA256: "@ + m.integrity.payload_sha256@,
        "FEC: "@ + m.integrity.fec_scheme@,
    ]
}

proof fn lemma_hex_chars(n: nat)
    ensures
        hex(n).len() > 0,
        forall|i: int| 0 <= i < hex(n).len() ==> #[trigger] hex(n)[i] != '\n' && !is_unicode_whitespace(hex(n)[i]),
    decreases n,
{
    if n >= 16 {
        lemma_hex_chars(n / 16);
        let h = hex(n / 16);
        assert forall|i: int| 0 <= i < hex(n).len() implies #[trigger] hex(n)[i] != '\n' && !is_unicode_whitespace(hex(n)[i]) by {
            if i < h.len() {
                assert(hex(n)[i] == h[i]);
            }
        }
    }
}

proof fn lemma_hex_padded_chars(n: nat, w: nat)
    ensures
        single_line(hex_padded(n, w)),
        non_blank(hex_padded(n, w)),
{
    lemma_hex_chars(n);
    let h = hex(n);
    let p = hex_padded(n, w);
    if h.len() >= w {
        assert(!is_unicode_whitespace(p[0]));
    } else {
        let z = Seq::new((w - h.len()) as nat, |i: int| '0');
        assert(p == z + h);
        assert forall|i: int| 0 <= i < p.len() implies #[trigger] p[i] != '\n' by {
            if i >= z.len() {
                assert(p[i] == h[i - z.len()]);
            }
        }
        assert(p[p.len() - 1] == h[h.len() - 1]);
        assert(!is_unicode_whitespace(p[p.len() - 1]));
    }
}

proof fn lemma_key_line(key: Seq<char>, v: Seq<char>)
    requires
        key.len() >= 2,
        !is_unicode_whitespace(key[0]),
        key[key.len() - 2] == ':',
        key[key.len() - 1] == ' ',
        single_line(key),
        single_line(v),
        non_blank(v),
    ensures
        description_line(key + v),
{
    let l = key + v;
    let i = choose|i: int| 0 <= i < v.len() && !is_unicode_whitespace(#[trigger] v[i]);
    assert(l[key.len() + i] == v[i]);
    lemma_trim_keeps_colon(l, key.len() as int, key.len() + i);
    assert forall|j: int| 0 <= j < l.len() implies #[trigger] l[j] != '\n' by {
        if j < key.len() {
            assert(l[j] == key[j]);
        } else {
            assert(l[j] == v[j - key.len()]);
        }
    }
}

proof fn lemma_single_line_concat(a: Seq<char>, b: Seq<char>)
    requires
        single_line(a),
        single_line(b),
    ensures
        single_line(a + b),
{
    assert forall|j: int| 0 <= j < (a + b).len() implies #[trigger] (a + b)[j] != '\n' by {
        if j < a.len() {
            assert((a + b)[j] == a[j]);
        } else {
            assert((a + b)[j] == b[j - a.len()]);
        }
    }
}

/// The description values of a package can be read back from its armor: each is one
/// line, the free-text ones are not blank, and none of the lines holds the footer text.
pub open spec fn armor_safe(m: SterngateMod) -> bool {
    &&& single_line(m.metadata.mod_id@) && non_blank(m.metadata.mod_id@)
    &&& single_line(m.metadata.name@) && non_blank(m.metadata.name@)
    &&& single_line(m.metadata.author@) && non_blank(m.metadata.author@)
    &&& single_line(join_with(texts(m.target.chassis@), ", "@)) && non_blank(join_with(texts(m.target.chassis@), ", "@))
    &&& single_line(m.target.ecu_name@)
    &&& single_line(m.integrity.payload_sha256@) && non_blank(m.integrity.payload_sha256@)
    &&& single_line(m.integrity.fec_scheme@) && non_blank(m.integrity.fec_scheme@)
    &&& !is_infix(footer_text(), armor_headers(m))
}

proof fn lemma_description_lines(m: SterngateMod)
    requires
        armor_safe(m),
    ensures
        forall|i: int| 0 <= i < description_lines(m).len() ==> description_line(#[trigger] description_lines(m)[i]),
{
    let ls = description_lines(m);
    reveal_strlit("Mod-ID: ");
    reveal_strlit("Name: ");
    reveal_strlit("Author: ");
    reveal_strlit("Target-Chassis: ");
    reveal_strlit("CRC32: ");
    reveal_strlit("SHA256: ");
    reveal_strlit("FEC: ");
    lemma_key_line("Mod-ID: "@, m.metadata.mod_id@);
    lemma_key_line("Name: "@, m.metadata.name@);
    lemma_key_line("Author: "@, m.metadata.author@);
    lemma_key_line("Target-Chassis: "@, join_with(texts(m.target.chassis@), ", "@));
    lemma_ecu_line(m);
    lemma_hex_padded_chars(m.integrity.payload_crc32 as nat, 8);
    lemma_key_line("CRC32: "@, hex_padded(m.integrity.payload_crc32 as nat, 8));
    lemma_key_line("SHA256: "@, m.integrity.payload_sha256@);
    lemma_key_line("FEC: "@, m.integrity.fec_scheme@);
}

proof fn lemma_ecu_line(m: SterngateMod)
    requires
        single_line(m.target.ecu_name@),
    ensures
        description_line(description_lines(m)[4]),
{
    reveal_strlit("Target-ECU: ");
    reveal_strlit(" (0x");
    reveal_strlit(")");
    let hx = hex_padded(m.target.tx_id as nat, 3);
    lemma_hex_padded_chars(m.target.tx_id as nat, 3);
    let ecu_v = m.target.ecu_name@ + " (0x"@ + hx + ")"@;
    lemma_single_line_concat(m.target.ecu_name@, " (0x"@);
    lemma_single_line_concat(m.target.ecu_name@ + " (0x"@, hx);
    lemma_single_line_concat(m.target.ecu_name@ + " (0x"@ + hx, ")"@);
    assert(ecu_v[ecu_v.len() - 1] == ')');
    lemma_key_line("Target-ECU: "@, ecu_v);
    assert("Target-ECU: "@ + ecu_v =~= description_lines(m)[4]);
}

proof fn lemma_lines_text_cons(ls: Seq<Seq<char>>)
    requires
        ls.len() > 0,
    ensures
        lines_text(ls) == ls[0].push('\n') + lines_text(ls.drop_first()),
{
}

#[verifier::spinoff_prover]
#[verifier::rlimit(100)]
proof fn lemma_headers_split(m: SterngateMod)
    ensures
        armor_headers(m) == lines_text(description_lines(m)) + "\n"@,
{
    reveal_strlit("\n");
    reveal_strlit(")\n");
    reveal_strlit(")");
    reveal_strlit("\n\n");
    let l0 = description_lines(m);
    let l1 = l0.drop_first();
    let l2 = l1.drop_first();
    let l3 = l2.drop_first();
    let l4 = l3.drop_first();
    let l5 = l4.drop_first();
    let l6 = l5.drop_first();
    let l7 = l6.drop_first();
    let l8 = l7.drop_first();
    assert(l8 =~= Seq::<Seq<char>>::empty());
    lemma_lines_text_cons(l7);
    lemma_lines_text_cons(l6);
    lemma_lines_text_cons(l5);
    lemma_lines_text_cons(l4);
    lemma_lines_text_cons(l3);
    lemma_lines_text_cons(l2);
    lemma_lines_text_cons(l1);
    lemma_lines_text_cons(l0);
    let t7 = l0[7].push('\n');
    let t6 = l0[6].push('\n') + t7;
    let t5 = l0[5].push('\n') + t6;
    let t4 = l0[4].push('\n') + t5;
    let t3 = l0[3].push('\n') + t4;
    let t2 = l0[2].push('\n') + t3;
    let t1 = l0[1].push('\n') + t2;
    let t0 = l0[0].push('\n') + t1;
    assert(lines_text(l7) =~= t7);
    assert(lines_text(l0) == t0);
    assert(armor_headers(m) =~= t0 + "\n"@);
}

/// What the base64 decoder makes of the text an armored block carries.
pub open spec fn base64_outcome(b64: Seq<char>) -> Result<ArmorContent, Seq<char>> {
    match base64_decoding(b64) {
        Ok(bytes) => Ok(ArmorContent::Encoded(bytes)),
        Err(m) => Err("Base64 decoding failed for mod payload: "@ + m),
    }
}

proof fn lemma_armor_lines_chars(b: Seq<char>)
    requires
        forall|i: int| 0 <= i < b.len() ==> base64_char(#[trigger] b[i]),
    ensures
        forall|i: int| 0 <= i < armor_lines(b).len() ==> #[trigger] armor_lines(b)[i] == '\n' || base64_char(armor_lines(b)[i]),
        b.len() > 0 ==> armor_lines(b).len() > 0 && armor_lines(b).last() == '\n',
    decreases b.len(),
{
    if b.len() > 64 {
        let c = b.take(64);
        let r = b.skip(64);
        assert forall|i: int| 0 <= i < r.len() implies base64_char(#[trigger] r[i]) by {
            assert(r[i] == b[i + 64]);
        }
        lemma_armor_lines_chars(r);
        let l = armor_lines(b);
        assert(l == c.push('\n') + armor_lines(r));
        assert forall|i: int| 0 <= i < l.len() implies #[trigger] l[i] == '\n' || base64_char(l[i]) by {
            if i < 64 {
                assert(l[i] == b[i]);
            } else if i > 64 {
                assert(l[i] == armor_lines(r)[i - 65]);
            }
        }
    } else if b.len() > 0 {
        let l = armor_lines(b);
        assert(l == b.push('\n'));
        assert forall|i: int| 0 <= i < l.len() implies #[trigger] l[i] == '\n' || base64_char(l[i]) by {
            if i < b.len() {
                assert(l[i] == b[i]);
            }
        }
    }
}

proof fn lemma_no_infix_concat(f: Seq<char>, x: Seq<char>, y: Seq<char>)
    requires
        !is_infix(f, x),
        !is_infix(f, y),
        x.len() > 0,
        x.last() == '\n',
        single_line(f),
    ensures
        !is_infix(f, x + y),
{
    let s = x + y;
    assert forall|q: int| !#[trigger] occurs_at(s, f, q) by {
        if occurs_at(s, f, q) {
            if q + f.len() <= x.len() {
                assert(x.subrange(q, q + f.len()) =~= s.subrange(q, q + f.len()));
                assert(occurs_at(x, f, q));
            } else if q >= x.len() {
                assert(y.subrange(q - x.len(), q - x.len() + f.len()) =~= s.subrange(q, q + f.len()));
                assert(occurs_at(y, f, q - x.len()));
            } else {
                assert(s.subrange(q, q + f.len())[x.len() - 1 - q] == s[x.len() - 1]);
                assert(f[x.len() - 1 - q] == '\n');
            }
        }
    }
}

proof fn lemma_footer_facts()
    ensures
        single_line(footer_text()),
        footer_text().len() == 37,
        footer_text()[8] == ' ',
        header_text().len() == 39,
        !is_infix(footer_text(), header_text() + "\n"@),
{
    reveal_strlit("-----BEGIN STERNGATE COMMUNITY MOD-----");
    reveal_strlit("-----END STERNGATE COMMUNITY MOD-----");
    reveal_strlit("\n");
    let f = footer_text();
    let h = header_text() + "\n"@;
    assert forall|q: int| !#[trigger] occurs_at(h, f, q) by {
        if occurs_at(h, f, q) {
            assert(0 <= q <= 3);
            assert(h.subrange(q, q + 37)[5 - q] == h[5]);
            assert(h[5] == 'B');
        }
    }
}

proof fn lemma_first_occurrence_at(hay: Seq<char>, needle: Seq<char>, i: nat, p: nat)
    requires
        i <= p,
        occurs_at(hay, needle, p as int),
        forall|q: int| i <= q < p ==> !#[trigger] occurs_at(hay, needle, q),
    ensures
        first_occurrence_from(hay, needle, i) == Some(p),
    decreases p - i,
{
    if i < p {
        assert(!occurs_at(hay, needle, i as int));
        lemma_first_occurrence_at(hay, needle, i + 1, p);
    }
}

/// Reading an armored text gives back the base64 text that was written into it, for any
/// package whose description lines read back (`armor_safe`) and any non-empty base64 text.
#[verifier::spinoff_prover]
#[verifier::rlimit(80)]
proof fn lemma_armor_readback(m: SterngateMod, b: Seq<char>)
    requires
        armor_safe(m),
        b.len() > 0,
        forall|i: int| 0 <= i < b.len() ==> base64_char(#[trigger] b[i]),
    ensures
        armor_outcome(header_text() + "\n"@ + armor_headers(m) + armor_lines(b) + footer_text() + "\n"@)
            == Some(base64_outcome(b)),
{
    reveal_strlit("-----BEGIN STERNGATE COMMUNITY MOD-----");
    reveal_strlit("-----END STERNGATE COMMUNITY MOD-----");
    reveal_strlit("\n");
    reveal_strlit("```text");
    reveal_strlit("```");
    lemma_footer_facts();
    lemma_armor_lines_chars(b);
    lemma_headers_split(m);
    lemma_description_lines(m);
    let hd = header_text() + "\n"@;
    let heads = armor_headers(m);
    let lines = armor_lines(b);
    let a = hd + heads + lines;
    let f = footer_text();
    let w = a + f;
    let input = w + "\n"@;
    assert(input =~= header_text() + "\n"@ + armor_headers(m) + armor_lines(b) + footer_text() + "\n"@);
    // trimming takes off the final line feed only
    assert(input[0] == '-');
    assert(input.last() == '\n');
    assert(input.drop_last() =~= w);
    assert(w[0] == '-');
    assert(w.last() == '-');
    assert(trim_ws(w) == w);
    assert(trim_ws(input) == w);
    // no fences
    assert(!is_prefix("```text"@, w)) by {
        assert(w.subrange(0, 7)[0] == w[0]);
    }
    assert(!is_prefix("```"@, w)) by {
        assert(w.subrange(0, 3)[0] == w[0]);
    }
    assert(strip_prefix_run(w, "```text"@) == w);
    assert(strip_prefix_run(w, "```"@) == w);
    assert(w.subrange(w.len() - 3, w.len() as int)[2] == w.last());
    assert(strip_suffix_run(w, "```"@) == w);
    assert(unfenced(w) == w);
    // the header sits at 0
    assert(w.subrange(0, 39) =~= header_text());
    assert(occurs_at(w, header_text(), 0));
    assert(first_occurrence(w, header_text()) == Some(0nat));
    // the footer first occurs right after the base64 lines
    lemma_no_infix_concat(f, hd, heads);
    assert(!is_infix(f, lines)) by {
        assert forall|q: int| !#[trigger] occurs_at(lines, f, q) by {
            if occurs_at(lines, f, q) {
                assert(lines.subrange(q, q + 37)[8] == lines[q + 8]);
            }
        }
    }
    assert((hd + heads).last() == '\n');
    lemma_no_infix_concat(f, hd + heads, lines);
    let p = a.len();
    assert(a.last() == '\n');
    assert(w.subrange(p as int, (p + 37) as int) =~= f);
    assert forall|q: int| 0 <= q < p implies !#[trigger] occurs_at(w, f, q) by {
        if occurs_at(w, f, q) {
            if q + 37 <= p {
                assert(a.subrange(q, q + 37) =~= w.subrange(q, q + 37));
                assert(occurs_at(a, f, q));
            } else {
                assert(w.subrange(q, q + 37)[p - 1 - q] == w[p - 1]);
                assert(w[p - 1] == a.last());
            }
        }
    }
    lemma_first_occurrence_at(w, f, 0, p);
    // the body holds a blank line, the description lines, a blank line and the base64 lines
    let body = w.subrange(39, p as int);
    let ls = description_lines(m);
    assert(body =~= "\n"@ + lines_text(ls) + "\n"@ + lines);
    let st0 = body_start();
    let st1 = BodyScan { seen_header: true, ..st0 };
    let st2 = BodyScan { past_headers: true, ..st1 };
    assert("\n"@ =~= Seq::<char>::empty().push('\n'));
    lemma_body_line(st0, Seq::<char>::empty());
    assert(body_from(st0, "\n"@) == st0);
    lemma_body_descriptions(st0, ls);
    lemma_body_line(st1, Seq::<char>::empty());
    assert(body_from(st1, "\n"@) == st2);
    lemma_body_base64_lines(st2, b);
    lemma_body_from_concat(st0, "\n"@, lines_text(ls));
    lemma_body_from_concat(st0, "\n"@ + lines_text(ls), "\n"@);
    lemma_body_from_concat(st0, "\n"@ + lines_text(ls) + "\n"@, lines);
    assert(st2.acc + b =~= b);
    assert(body_base64(body) == b);
}

} // verus!
