//! Character-level text building and parsing used across the library:
//! decimal and hexadecimal rendering, ASCII classification and case mapping.

use vstd::prelude::*;
use vstd::string::StringSliceAdditionalSpecFns;
use vstd::utf8::{decode_utf8, encode_utf8, is_char_boundary, valid_utf8};

verus! {

/// Appends one character (`String::push`).
#[verifier::external_body]
pub(crate) fn push_char(s: &mut String, c: char)
    ensures
        final(s)@ == old(s)@.push(c),
{
    s.push(c);
}

/// Appends a string slice (`String::push_str`).
#[verifier::external_body]
pub(crate) fn push_str(s: &mut String, t: &str)
    ensures
        final(s)@ == old(s)@ + t@,
{
    s.push_str(t);
}

/// The decimal digit character for `d < 10`.
pub open spec fn digit_char(d: nat) -> char {
    ((d + 48) as u8) as char
}

/// The uppercase hexadecimal digit character for `d < 16`.
pub open spec fn hex_char(d: nat) -> char {
    if d < 10 {
        ((d + 48) as u8) as char
    } else {
        ((d + 55) as u8) as char
    }
}

/// Decimal rendering of `n` without leading zeros ("0" for zero).
pub open spec fn decimal(n: nat) -> Seq<char>
    decreases n,
{
    if n < 10 {
        seq![digit_char(n)]
    } else {
        decimal(n / 10).push(digit_char(n % 10))
    }
}

/// Uppercase hexadecimal rendering of `n` without leading zeros ("0" for zero).
pub open spec fn hex(n: nat) -> Seq<char>
    decreases n,
{
    if n < 16 {
        seq![hex_char(n)]
    } else {
        hex(n / 16).push(hex_char(n % 16))
    }
}

/// Uppercase hexadecimal rendering of `n`, left-padded with '0' to at least `width` digits.
pub open spec fn hex_padded(n: nat, width: nat) -> Seq<char> {
    let h = hex(n);
    if h.len() >= width {
        h
    } else {
        Seq::new((width - h.len()) as nat, |i: int| '0') + h
    }
}

fn digit_char_exec(d: u64) -> (c: char)
    requires
        d < 10,
    ensures
        c == digit_char(d as nat),
{
    ((d + 48) as u8) as char
}

fn hex_char_exec(d: u64) -> (c: char)
    requires
        d < 16,
    ensures
        c == hex_char(d as nat),
{
    if d < 10 {
        ((d + 48) as u8) as char
    } else {
        ((d + 55) as u8) as char
    }
}

/// Appends the decimal rendering of `n`.
pub fn push_decimal(s: &mut String, n: u64)
    ensures
        final(s)@ == old(s)@ + decimal(n as nat),
    decreases n,
{
    if n >= 10 {
        push_decimal(s, n / 10);
    }
    push_char(s, digit_char_exec(n % 10));
    proof {
        if n >= 10 {
            assert(old(s)@ + decimal(n as nat) =~= (old(s)@ + decimal((n / 10) as nat)).push(
                digit_char((n % 10) as nat),
            ));
        } else {
            assert(old(s)@ + decimal(n as nat) =~= old(s)@.push(digit_char(n as nat)));
        }
    }
}

/// Appends the uppercase hexadecimal rendering of `n`.
pub fn push_hex(s: &mut String, n: u64)
    ensures
        final(s)@ == old(s)@ + hex(n as nat),
    decreases n,
{
    if n >= 16 {
        push_hex(s, n / 16);
    }
    push_char(s, hex_char_exec(n % 16));
    proof {
        if n >= 16 {
            assert(old(s)@ + hex(n as nat) =~= (old(s)@ + hex((n / 16) as nat)).push(
                hex_char((n % 16) as nat),
            ));
        } else {
            assert(old(s)@ + hex(n as nat) =~= old(s)@.push(hex_char(n as nat)));
        }
    }
}

/// Length of the uppercase hexadecimal rendering of `n`.
fn hex_len(n: u64) -> (r: u64)
    ensures
        r == hex(n as nat).len(),
        r <= n + 1,
    decreases n,
{
    if n < 16 {
        1
    } else {
        let k = hex_len(n / 16);
        proof {
            assert(hex(n as nat).len() == hex((n / 16) as nat).len() + 1);
        }
        k + 1
    }
}

/// Appends `n` in uppercase hexadecimal, left-padded with '0' to `width` digits.
pub fn push_hex_padded(s: &mut String, n: u64, width: usize)
    ensures
        final(s)@ == old(s)@ + hex_padded(n as nat, width as nat),
{
    let len64 = hex_len(n);
    let ghost start = s@;
    if len64 < width as u64 {
        let len = len64 as usize;
        let mut i: usize = 0;
        while i < width - len
            invariant
                len < width,
                i <= width - len,
                s@ == start + Seq::new(i as nat, |k: int| '0'),
            decreases width - len - i,
        {
            push_char(s, '0');
            proof {
                assert(start + Seq::new((i + 1) as nat, |k: int| '0') =~= (start + Seq::new(
                    i as nat,
                    |k: int| '0',
                )).push('0'));
            }
            i = i + 1;
        }
    }
    push_hex(s, n);
    proof {
        assert(s@ =~= start + hex_padded(n as nat, width as nat));
    }
}

/// Unicode `White_Space` characters.
pub open spec fn is_unicode_whitespace(c: char) -> bool {
    let v = c as u32;
    ||| 0x09 <= v <= 0x0D
    ||| v == 0x20
    ||| v == 0x85
    ||| v == 0xA0
    ||| v == 0x1680
    ||| 0x2000 <= v <= 0x200A
    ||| v == 0x2028
    ||| v == 0x2029
    ||| v == 0x202F
    ||| v == 0x205F
    ||| v == 0x3000
}

/// Whether `c` is Unicode white space.
pub fn is_whitespace(c: char) -> (r: bool)
    ensures
        r == is_unicode_whitespace(c),
{
    let v = c as u32;
    (0x09 <= v && v <= 0x0D) || v == 0x20 || v == 0x85 || v == 0xA0 || v == 0x1680 || (0x2000
        <= v && v <= 0x200A) || v == 0x2028 || v == 0x2029 || v == 0x202F || v == 0x205F || v
        == 0x3000
}

/// `[cur]` when `cur` is a non-empty token, else nothing.
pub open spec fn flush_token(cur: Seq<char>) -> Seq<Seq<char>> {
    if cur.len() > 0 {
        seq![cur]
    } else {
        Seq::empty()
    }
}

/// The white-space separated tokens of `s`, the first of them continuing `cur`.
pub open spec fn tokens_from(s: Seq<char>, cur: Seq<char>) -> Seq<Seq<char>>
    decreases s.len(),
{
    if s.len() == 0 {
        flush_token(cur)
    } else if is_unicode_whitespace(s[0]) {
        flush_token(cur) + tokens_from(s.drop_first(), Seq::empty())
    } else {
        tokens_from(s.drop_first(), cur.push(s[0]))
    }
}

/// The maximal runs of non-white-space characters of `s`, in order.
pub open spec fn ws_tokens(s: Seq<char>) -> Seq<Seq<char>> {
    tokens_from(s, Seq::empty())
}

/// The contents of a list of character vectors.
pub open spec fn seqs_of(v: Seq<Vec<char>>) -> Seq<Seq<char>> {
    v.map_values(|t: Vec<char>| t@)
}

/// Splits `s` into its white-space separated tokens.
pub fn split_whitespace(s: &[char]) -> (r: Vec<Vec<char>>)
    ensures
        seqs_of(r@) == ws_tokens(s@),
{
    let mut out: Vec<Vec<char>> = Vec::new();
    let mut cur: Vec<char> = Vec::new();
    let mut i: usize = 0;
    proof {
        assert(s@.skip(0) =~= s@);
        assert(seqs_of(out@) + ws_tokens(s@) =~= ws_tokens(s@));
    }
    while i < s.len()
        invariant
            i <= s@.len(),
            seqs_of(out@) + tokens_from(s@.skip(i as int), cur@) == ws_tokens(s@),
        decreases s@.len() - i,
    {
        let c = s[i];
        let ghost rest = s@.skip(i as int);
        proof {
            assert(rest.drop_first() =~= s@.skip(i + 1));
            assert(rest[0] == c);
        }
        if is_whitespace(c) {
            if cur.len() > 0 {
                let ghost before = seqs_of(out@);
                let ghost tok = cur@;
                out.push(cur);
                proof {
                    assert(seqs_of(out@) =~= before.push(tok));
                    assert(before + (seq![tok] + tokens_from(s@.skip(i + 1), Seq::empty()))
                        =~= before.push(tok) + tokens_from(s@.skip(i + 1), Seq::empty()));
                }
            } else {
                proof {
                    assert(flush_token(cur@) =~= Seq::<Seq<char>>::empty());
                    assert(flush_token(cur@) + tokens_from(s@.skip(i + 1), Seq::empty())
                        =~= tokens_from(s@.skip(i + 1), Seq::empty()));
                }
            }
            cur = Vec::new();
        } else {
            cur.push(c);
        }
        i = i + 1;
    }
    proof {
        assert(s@.skip(i as int).len() == 0);
    }
    if cur.len() > 0 {
        let ghost before = seqs_of(out@);
        let ghost tok = cur@;
        out.push(cur);
        proof {
            assert(seqs_of(out@) =~= before.push(tok));
            assert(before + seq![tok] =~= before.push(tok));
        }
    } else {
        proof {
            assert(seqs_of(out@) + Seq::<Seq<char>>::empty() =~= seqs_of(out@));
        }
    }
    out
}

/// Tokens joined with single spaces.
pub open spec fn join_spaced(ts: Seq<Seq<char>>) -> Seq<char>
    decreases ts.len(),
{
    if ts.len() == 0 {
        Seq::empty()
    } else if ts.len() == 1 {
        ts[0]
    } else {
        join_spaced(ts.drop_last()) + seq![' '] + ts.last()
    }
}

/// Joins `tokens[from..]` with single spaces into a new string.
pub fn join_tokens_from(tokens: &Vec<Vec<char>>, from: usize) -> (r: String)
    requires
        from <= tokens@.len(),
    ensures
        r@ == join_spaced(seqs_of(tokens@).skip(from as int)),
{
    let mut r = String::new();
    let mut k: usize = from;
    if k < tokens.len() {
        let mut j: usize = 0;
        while j < tokens[k].len()
            invariant
                k < tokens@.len(),
                j <= tokens@[k as int]@.len(),
                r@ == tokens@[k as int]@.take(j as int),
            decreases tokens@[k as int]@.len() - j,
        {
            push_char(&mut r, tokens[k][j]);
            proof {
                assert(tokens@[k as int]@.take(j + 1) =~= tokens@[k as int]@.take(j as int).push(
                    tokens@[k as int]@[j as int],
                ));
            }
            j = j + 1;
        }
        proof {
            assert(tokens@[k as int]@.take(j as int) =~= tokens@[k as int]@);
            assert(seqs_of(tokens@).skip(from as int).subrange(0, 1) =~= seq![tokens@[k as int]@]);
        }
        k = k + 1;
        while k < tokens.len()
            invariant
                from < k <= tokens@.len(),
                r@ == join_spaced(seqs_of(tokens@).subrange(from as int, k as int)),
            decreases tokens@.len() - k,
        {
            let ghost prefix = r@;
            push_char(&mut r, ' ');
            let mut j: usize = 0;
            while j < tokens[k].len()
                invariant
                    k < tokens@.len(),
                    j <= tokens@[k as int]@.len(),
                    r@ == prefix + seq![' '] + tokens@[k as int]@.take(j as int),
                decreases tokens@[k as int]@.len() - j,
            {
                push_char(&mut r, tokens[k][j]);
                proof {
                    assert(tokens@[k as int]@.take(j + 1) =~= tokens@[k as int]@.take(j as int).push(
                        tokens@[k as int]@[j as int],
                    ));
                }
                j = j + 1;
            }
            proof {
                let ts = seqs_of(tokens@).subrange(from as int, k + 1);
                assert(ts.drop_last() =~= seqs_of(tokens@).subrange(from as int, k as int));
                assert(tokens@[k as int]@.take(j as int) =~= tokens@[k as int]@);
            }
            k = k + 1;
        }
        proof {
            assert(seqs_of(tokens@).subrange(from as int, k as int) =~= seqs_of(tokens@).skip(
                from as int,
            ));
        }
    } else {
        proof {
            assert(seqs_of(tokens@).skip(from as int).len() == 0);
        }
    }
    r
}

/// The value of an ASCII digit or letter in base `radix` (at most 36), if it is a digit there.
pub open spec fn digit_in(c: char, radix: nat) -> Option<nat> {
    let v = c as u32;
    let d: int = if 48 <= v <= 57 {
        v - 48
    } else if 97 <= v <= 122 {
        v - 87
    } else if 65 <= v <= 90 {
        v - 55
    } else {
        99
    };
    if d < radix {
        Some(d as nat)
    } else {
        None
    }
}

/// Whether every character of `s` is a digit in base `radix`.
pub open spec fn all_digits_in(s: Seq<char>, radix: nat) -> bool {
    forall|i: int| 0 <= i < s.len() ==> (#[trigger] digit_in(s[i], radix)) is Some
}

/// The value of a string of digits in base `radix`.
pub open spec fn digits_value_in(s: Seq<char>, radix: nat) -> nat
    decreases s.len(),
{
    if s.len() == 0 {
        0
    } else {
        digits_value_in(s.drop_last(), radix) * radix + match digit_in(s.last(), radix) {
            Some(d) => d,
            None => 0,
        }
    }
}

/// Unsigned parse in base `radix`: an optional leading `+`, then one or more digits,
/// with a value of at most `max`.
pub open spec fn parse_radix(s: Seq<char>, radix: nat, max: nat) -> Option<nat> {
    let digits = if s.len() > 0 && s[0] == '+' {
        s.drop_first()
    } else {
        s
    };
    if digits.len() == 0 || !all_digits_in(digits, radix) || digits_value_in(digits, radix)
        > max {
        None
    } else {
        Some(digits_value_in(digits, radix))
    }
}

/// Unsigned decimal parse with a value of at most `max`.
pub open spec fn parse_unsigned(s: Seq<char>, max: nat) -> Option<nat> {
    parse_radix(s, 10, max)
}

fn digit_in_exec(c: char, radix: u32) -> (r: Option<u32>)
    requires
        2 <= radix <= 36,
    ensures
        match digit_in(c, radix as nat) {
            Some(d) => r == Some(d as u32),
            None => r is None,
        },
{
    let v = c as u32;
    let d: u32 = if 48 <= v && v <= 57 {
        v - 48
    } else if 97 <= v && v <= 122 {
        v - 87
    } else if 65 <= v && v <= 90 {
        v - 55
    } else {
        99
    };
    if d < radix {
        Some(d)
    } else {
        None
    }
}

/// Parses `s` as an unsigned number in base `radix`, no larger than `max`.
pub fn parse_radix_bounded(s: &[char], radix: u32, max: u32) -> (r: Option<u32>)
    requires
        2 <= radix <= 36,
    ensures
        match parse_radix(s@, radix as nat, max as nat) {
            Some(v) => r == Some(v as u32),
            None => r is None,
        },
{
    let start: usize = if s.len() > 0 && s[0] == '+' {
        1
    } else {
        0
    };
    let ghost digits = if s@.len() > 0 && s@[0] == '+' {
        s@.drop_first()
    } else {
        s@
    };
    proof {
        assert(digits =~= s@.skip(start as int));
    }
    if start == s.len() {
        proof {
            assert(digits.len() == 0);
        }
        return None;
    }
    let mut value: u64 = 0;
    let mut too_big = false;
    let mut i: usize = start;
    while i < s.len()
        invariant
            2 <= radix <= 36,
            start <= i <= s@.len(),
            digits == s@.skip(start as int),
            digits == (if s@.len() > 0 && s@[0] == '+' {
                s@.drop_first()
            } else {
                s@
            }),
            all_digits_in(s@.subrange(start as int, i as int), radix as nat),
            !too_big ==> value == digits_value_in(
                s@.subrange(start as int, i as int),
                radix as nat,
            ),
            !too_big ==> value <= max,
            too_big ==> digits_value_in(s@.subrange(start as int, i as int), radix as nat) > max,
        decreases s@.len() - i,
    {
        let c = s[i];
        let ghost pre = s@.subrange(start as int, i as int);
        let ghost next = s@.subrange(start as int, i + 1);
        proof {
            assert(next.drop_last() =~= pre);
            assert(next.last() == c);
        }
        let dig = digit_in_exec(c, radix);
        match dig {
            None => {
                proof {
                    assert(!all_digits_in(digits, radix as nat)) by {
                        assert(digits[i - start] == c);
                    }
                }
                return None;
            },
            Some(d) => {
                proof {
                    assert(all_digits_in(next, radix as nat)) by {
                        assert forall|k: int| 0 <= k < next.len() implies (#[trigger] digit_in(
                            next[k],
                            radix as nat,
                        )) is Some by {
                            if k < pre.len() {
                                assert(next[k] == pre[k]);
                            }
                        }
                    }
                }
                if !too_big {
                    proof {
                        assert(value * radix <= 0xFFFF_FFFFu64 * 36) by (nonlinear_arith)
                            requires
                                value <= 0xFFFF_FFFFu64,
                                radix <= 36,
                        ;
                    }
                    let nv = value * (radix as u64) + (d as u64);
                    if nv > max as u64 {
                        too_big = true;
                    } else {
                        value = nv;
                    }
                } else {
                    proof {
                        assert(digits_value_in(next, radix as nat) >= digits_value_in(
                            pre,
                            radix as nat,
                        )) by (nonlinear_arith)
                            requires
                                digits_value_in(next, radix as nat) == digits_value_in(
                                    pre,
                                    radix as nat,
                                ) * radix + d,
                                radix >= 2,
                        ;
                    }
                }
            },
        }
        i = i + 1;
    }
    proof {
        assert(s@.subrange(start as int, i as int) =~= digits);
    }
    if too_big {
        None
    } else {
        Some(value as u32)
    }
}

/// Parses `s` as an unsigned decimal number no larger than `max`.
pub fn parse_bounded(s: &[char], max: u32) -> (r: Option<u32>)
    ensures
        match parse_unsigned(s@, max as nat) {
            Some(v) => r == Some(v as u32),
            None => r is None,
        },
{
    parse_radix_bounded(s, 10, max)
}

/// The characters of a string slice.
#[verifier::external_body]
pub(crate) fn str_chars(s: &str) -> (r: Vec<char>)
    ensures
        r@ == s@,
{
    s.chars().collect()
}

/// `s` without leading and trailing white space.
pub open spec fn trim_ws(s: Seq<char>) -> Seq<char>
    decreases s.len(),
{
    if s.len() == 0 {
        s
    } else if is_unicode_whitespace(s[0]) {
        trim_ws(s.drop_first())
    } else if is_unicode_whitespace(s.last()) {
        trim_ws(s.drop_last())
    } else {
        s
    }
}

/// `s` without leading and trailing white space.
pub fn trim(s: &[char]) -> (r: Vec<char>)
    ensures
        r@ == trim_ws(s@),
{
    let mut lo: usize = 0;
    let mut hi: usize = s.len();
    proof {
        assert(s@.subrange(0, s@.len() as int) =~= s@);
    }
    while lo < hi && is_whitespace(s[lo])
        invariant
            lo <= hi == s@.len(),
            trim_ws(s@) == trim_ws(s@.subrange(lo as int, hi as int)),
        decreases hi - lo,
    {
        proof {
            assert(s@.subrange(lo as int, hi as int).drop_first() =~= s@.subrange(lo + 1, hi as int));
        }
        lo = lo + 1;
    }
    while lo < hi && is_whitespace(s[hi - 1])
        invariant
            lo <= hi <= s@.len(),
            trim_ws(s@) == trim_ws(s@.subrange(lo as int, hi as int)),
            lo < hi ==> !is_unicode_whitespace(s@[lo as int]),
        decreases hi - lo,
    {
        proof {
            let t = s@.subrange(lo as int, hi as int);
            assert(t.drop_last() =~= s@.subrange(lo as int, hi - 1));
        }
        hi = hi - 1;
    }
    let mut r: Vec<char> = Vec::with_capacity(hi - lo);
    let mut k: usize = lo;
    while k < hi
        invariant
            lo <= k <= hi <= s@.len(),
            r@ == s@.subrange(lo as int, k as int),
        decreases hi - k,
    {
        r.push(s[k]);
        proof {
            assert(s@.subrange(lo as int, k + 1) =~= s@.subrange(lo as int, k as int).push(
                s@[k as int],
            ));
        }
        k = k + 1;
    }
    r
}

/// Whether every character of `s` is ASCII.
pub open spec fn all_ascii(s: Seq<char>) -> bool {
    forall|i: int| 0 <= i < s.len() ==> (#[trigger] s[i] as u32) < 128
}

/// A trimmed text neither starts nor ends with white space, and trimming it again
/// changes nothing.
pub proof fn lemma_trim_ws_ends(s: Seq<char>)
    ensures
        trim_ws(s).len() > 0 ==> !is_unicode_whitespace(trim_ws(s)[0]) && !is_unicode_whitespace(
            trim_ws(s).last(),
        ),
        trim_ws(trim_ws(s)) == trim_ws(s),
    decreases s.len(),
{
    if s.len() > 0 {
        if is_unicode_whitespace(s[0]) {
            lemma_trim_ws_ends(s.drop_first());
        } else if is_unicode_whitespace(s.last()) {
            lemma_trim_ws_ends(s.drop_last());
        }
    }
}

/// ASCII upper-case of one character; other characters are unchanged.
pub open spec fn ascii_upper(c: char) -> char {
    if 'a' <= c <= 'z' {
        ((c as u32) - 32) as char
    } else {
        c
    }
}

/// ASCII lower-case of one character; other characters are unchanged.
pub open spec fn ascii_lower(c: char) -> char {
    if 'A' <= c <= 'Z' {
        ((c as u32) + 32) as char
    } else {
        c
    }
}

/// The upper-case mapping of a string: on ASCII text `a`..`z` become `A`..`Z` and
/// nothing else changes; on other text, the Unicode mapping `upper_text`.
pub open spec fn upper_of(s: Seq<char>) -> Seq<char> {
    if all_ascii(s) {
        s.map_values(|c: char| ascii_upper(c))
    } else {
        upper_text(s)
    }
}

/// The lower-case mapping of a string: on ASCII text `A`..`Z` become `a`..`z` and
/// nothing else changes; on other text, the Unicode mapping `lower_text`.
pub open spec fn lower_of(s: Seq<char>) -> Seq<char> {
    if all_ascii(s) {
        s.map_values(|c: char| ascii_lower(c))
    } else {
        lower_text(s)
    }
}

/// Name for the Unicode upper-case mapping of a string, as `str::to_uppercase` computes it.
pub uninterp spec fn upper_text(s: Seq<char>) -> Seq<char>;

/// Name for the Unicode lower-case mapping of a string, as `str::to_lowercase` computes it.
pub uninterp spec fn lower_text(s: Seq<char>) -> Seq<char>;

/// `str::to_uppercase` on a character sequence. Its result is named by `upper_text`;
/// stated besides: on ASCII input it maps `a`..`z` to `A`..`Z` and keeps every other
/// character. What it does to other characters (Unicode case tables) is left to the name.
#[verifier::external_body]
pub(crate) fn to_upper(s: &[char]) -> (r: Vec<char>)
    ensures
        r@ == upper_text(s@),
        all_ascii(s@) ==> r@ == s@.map_values(|c: char| ascii_upper(c)),
{
    s.iter().collect::<String>().to_uppercase().chars().collect()
}

/// `str::to_lowercase` on a character sequence. Its result is named by `lower_text`;
/// stated besides: on ASCII input it maps `A`..`Z` to `a`..`z` and keeps every other
/// character. What it does to other characters (Unicode case tables) is left to the name.
#[verifier::external_body]
pub(crate) fn to_lower(s: &[char]) -> (r: Vec<char>)
    ensures
        r@ == lower_text(s@),
        all_ascii(s@) ==> r@ == s@.map_values(|c: char| ascii_lower(c)),
{
    s.iter().collect::<String>().to_lowercase().chars().collect()
}

/// Whether `v` holds exactly the characters of `s`.
pub fn chars_eq(v: &[char], s: &str) -> (r: bool)
    ensures
        r == (v@ == s@),
{
    let t = str_chars(s);
    if v.len() != t.len() {
        return false;
    }
    let mut i: usize = 0;
    while i < v.len()
        invariant
            i <= v@.len() == t@.len(),
            t@ == s@,
            forall|k: int| 0 <= k < i ==> v@[k] == t@[k],
        decreases v@.len() - i,
    {
        if v[i] != t[i] {
            return false;
        }
        i = i + 1;
    }
    proof {
        assert(v@ =~= t@);
    }
    true
}

/// A new string holding the characters of `v`.
pub fn string_of(v: &[char]) -> (r: String)
    ensures
        r@ == v@,
{
    let mut r = String::new();
    let mut i: usize = 0;
    while i < v.len()
        invariant
            i <= v@.len(),
            r@ == v@.take(i as int),
        decreases v@.len() - i,
    {
        push_char(&mut r, v[i]);
        proof {
            assert(v@.take(i + 1) =~= v@.take(i as int).push(v@[i as int]));
        }
        i = i + 1;
    }
    proof {
        assert(v@.take(i as int) =~= v@);
    }
    r
}

/// The lower-case hexadecimal digit for `d < 16`.
pub open spec fn lower_hex_char(d: nat) -> char {
    if d < 10 {
        ((d + 48) as u8) as char
    } else {
        ((d + 87) as u8) as char
    }
}

/// Two lower-case hexadecimal digits per byte, in order.
pub open spec fn lower_hex_bytes(b: Seq<u8>) -> Seq<char>
    decreases b.len(),
{
    if b.len() == 0 {
        Seq::empty()
    } else {
        lower_hex_bytes(b.drop_last()) + seq![
            lower_hex_char((b.last() / 16) as nat),
            lower_hex_char((b.last() % 16) as nat),
        ]
    }
}

fn lower_hex_digit(d: u8) -> (c: char)
    requires
        d < 16,
    ensures
        c == lower_hex_char(d as nat),
{
    if d < 10 {
        ((d + 48) as u8) as char
    } else {
        ((d + 87) as u8) as char
    }
}

/// Renders bytes as lower-case hexadecimal, two digits each.
pub fn lower_hex_string(b: &[u8]) -> (r: String)
    ensures
        r@ == lower_hex_bytes(b@),
{
    let mut r = String::new();
    let mut i: usize = 0;
    while i < b.len()
        invariant
            i <= b@.len(),
            r@ == lower_hex_bytes(b@.take(i as int)),
        decreases b@.len() - i,
    {
        proof {
            assert(b@.take(i + 1).drop_last() =~= b@.take(i as int));
        }
        push_char(&mut r, lower_hex_digit(b[i] / 16));
        push_char(&mut r, lower_hex_digit(b[i] % 16));
        proof {
            assert(r@ =~= lower_hex_bytes(b@.take(i + 1)));
        }
        i = i + 1;
    }
    proof {
        assert(b@.take(i as int) =~= b@);
    }
    r
}

/// The characters of ASCII bytes.
pub open spec fn ascii_text(b: Seq<u8>) -> Seq<char> {
    b.map_values(|x: u8| x as char)
}

/// The characters of the bytes `b[from..to]`, one per byte.
pub fn ascii_string(b: &[u8], from: usize, to: usize) -> (r: Vec<char>)
    requires
        from <= to <= b@.len(),
    ensures
        r@ == ascii_text(b@.subrange(from as int, to as int)),
{
    let mut r: Vec<char> = Vec::with_capacity(to - from);
    let mut i: usize = from;
    while i < to
        invariant
            from <= i <= to <= b@.len(),
            r@ == ascii_text(b@.subrange(from as int, i as int)),
        decreases to - i,
    {
        r.push(b[i] as char);
        proof {
            assert(ascii_text(b@.subrange(from as int, i + 1)) =~= ascii_text(
                b@.subrange(from as int, i as int),
            ).push(b@[i as int] as char));
        }
        i = i + 1;
    }
    r
}

/// The characters encoded by bytes `a..b` of `st`, both character boundaries.
pub fn byte_substring(st: &str, a: usize, b: usize) -> (r: Vec<char>)
    requires
        a <= b <= encode_utf8(st@).len(),
        is_char_boundary(encode_utf8(st@), a as int),
        is_char_boundary(encode_utf8(st@), b as int),
    ensures
        r@ == decode_utf8(encode_utf8(st@).subrange(a as int, b as int)),
{
    let ghost bytes = encode_utf8(st@);
    proof {
        vstd::utf8::encode_utf8_valid_utf8(st@);
        vstd::utf8::valid_utf8_split(bytes, a as int);
    }
    let (_, tail) = st.split_at(a);
    let ghost tb = bytes.subrange(a as int, bytes.len() as int);
    proof {
        assert(tail.spec_bytes() =~= tb);
        assert(valid_utf8(tb));
        if b - a == 0 {
        } else if b as int == bytes.len() {
            vstd::utf8::is_char_boundary_start_end_of_seq(tb);
        } else {
            vstd::utf8::is_char_boundary_iff_not_is_continuation_byte(bytes, b as int);
            vstd::utf8::is_char_boundary_iff_not_is_continuation_byte(tb, (b - a) as int);
            assert(tb[(b - a) as int] == bytes[b as int]);
        }
    }
    let (mid, _) = tail.split_at(b - a);
    proof {
        assert(mid.spec_bytes() =~= bytes.subrange(a as int, b as int));
        vstd::utf8::encode_utf8_decode_utf8(mid@);
    }
    str_chars(mid)
}

/// Why an integer could not be parsed, as `core::num::IntErrorKind` tells it.
#[derive(Debug, Clone, Copy, PartialEq, Eq)]
pub enum ParseFail {
    /// The string was empty.
    Empty,
    /// A character is not a digit (or the string was a lone sign).
    InvalidDigit,
    /// The value does not fit.
    Overflow,
}

/// Reading digits left to right onto `acc`: the value, or the first failure.
pub open spec fn scan_digits(d: Seq<char>, radix: nat, max: nat, acc: nat) -> Result<nat, ParseFail>
    decreases d.len(),
{
    if d.len() == 0 {
        Ok(acc)
    } else {
        match digit_in(d[0], radix) {
            None => Err(ParseFail::InvalidDigit),
            Some(x) => if acc * radix + x > max {
                Err(ParseFail::Overflow)
            } else {
                scan_digits(d.drop_first(), radix, max, acc * radix + x)
            },
        }
    }
}

/// Unsigned `from_str_radix`: empty, a lone `+`, then the digits after an optional `+`.
pub open spec fn parse_int(s: Seq<char>, radix: nat, max: nat) -> Result<nat, ParseFail> {
    if s.len() == 0 {
        Err(ParseFail::Empty)
    } else if s.len() == 1 && s[0] == '+' {
        Err(ParseFail::InvalidDigit)
    } else if s[0] == '+' {
        scan_digits(s.drop_first(), radix, max, 0)
    } else {
        scan_digits(s, radix, max, 0)
    }
}

/// The message `core::num::ParseIntError` displays for each failure.
pub open spec fn parse_fail_text(f: ParseFail) -> Seq<char> {
    match f {
        ParseFail::Empty => "cannot parse integer from empty string"@,
        ParseFail::InvalidDigit => "invalid digit found in string"@,
        ParseFail::Overflow => "number too large to fit in target type"@,
    }
}

/// Appends the message of a parse failure.
pub fn push_parse_fail(s: &mut String, f: ParseFail)
    ensures
        final(s)@ == old(s)@ + parse_fail_text(f),
{
    match f {
        ParseFail::Empty => push_str(s, "cannot parse integer from empty string"),
        ParseFail::InvalidDigit => push_str(s, "invalid digit found in string"),
        ParseFail::Overflow => push_str(s, "number too large to fit in target type"),
    }
}

/// Parses an unsigned integer in base `radix` no larger than `max`, reporting the
/// first failure as `from_str_radix` does.
pub fn parse_int_radix(s: &[char], radix: u32, max: u32) -> (r: Result<u32, ParseFail>)
    requires
        2 <= radix <= 36,
    ensures
        match parse_int(s@, radix as nat, max as nat) {
            Ok(v) => r == Ok::<u32, ParseFail>(v as u32),
            Err(e) => r == Err::<u32, ParseFail>(e),
        },
        r matches Ok(v) ==> parse_int(s@, radix as nat, max as nat) == Ok::<nat, ParseFail>(v as nat),
{
    if s.len() == 0 {
        return Err(ParseFail::Empty);
    }
    if s.len() == 1 && s[0] == '+' {
        return Err(ParseFail::InvalidDigit);
    }
    let start: usize = if s[0] == '+' {
        1
    } else {
        0
    };
    let ghost d = s@.skip(start as int);
    proof {
        if s@[0] == '+' {
            assert(d =~= s@.drop_first());
        } else {
            assert(d =~= s@);
        }
        assert(parse_int(s@, radix as nat, max as nat) == scan_digits(d, radix as nat, max as nat, 0));
    }
    let mut acc: u64 = 0;
    let mut i: usize = start;
    while i < s.len()
        invariant
            2 <= radix <= 36,
            start <= i <= s@.len(),
            acc <= max,
            scan_digits(d, radix as nat, max as nat, 0) == scan_digits(
                s@.skip(i as int),
                radix as nat,
                max as nat,
                acc as nat,
            ),
            d == s@.skip(start as int),
            parse_int(s@, radix as nat, max as nat) == scan_digits(d, radix as nat, max as nat, 0),
        decreases s@.len() - i,
    {
        let ghost rest = s@.skip(i as int);
        proof {
            assert(rest[0] == s@[i as int]);
            assert(rest.drop_first() =~= s@.skip(i + 1));
        }
        match digit_in_exec(s[i], radix) {
            None => {
                return Err(ParseFail::InvalidDigit);
            },
            Some(x) => {
                proof {
                    assert(acc * radix <= 0xFFFF_FFFFu64 * 36) by (nonlinear_arith)
                        requires
                            acc <= 0xFFFF_FFFFu64,
                            radix <= 36,
                    ;
                }
                let v = acc * (radix as u64) + (x as u64);
                if v > max as u64 {
                    return Err(ParseFail::Overflow);
                }
                acc = v;
            },
        }
        i = i + 1;
    }
    proof {
        assert(s@.skip(i as int).len() == 0);
    }
    Ok(acc as u32)
}

/// `s` with every leading `"0"` followed by `x` removed
/// (`str::trim_start_matches("0x")` for `x == 'x'`).
pub open spec fn strip_zero_prefix(s: Seq<char>, x: char) -> Seq<char>
    decreases s.len(),
{
    if s.len() >= 2 && s[0] == '0' && s[1] == x {
        strip_zero_prefix(s.skip(2), x)
    } else {
        s
    }
}

/// Where the characters left by `strip_zero_prefix` start, searching from `at`.
pub(crate) fn zero_prefix_end(s: &[char], at: usize, x: char) -> (r: usize)
    requires
        at <= s@.len(),
    ensures
        at <= r <= s@.len(),
        strip_zero_prefix(s@.skip(at as int), x) == s@.skip(r as int),
    decreases s@.len() - at,
{
    if s.len() - at >= 2 && s[at] == '0' && s[at + 1] == x {
        proof {
            assert(s@.skip(at as int).skip(2) =~= s@.skip(at + 2));
        }
        zero_prefix_end(s, at + 2, x)
    } else {
        proof {
            let t = s@.skip(at as int);
            if t.len() >= 2 {
                assert(t[0] == s@[at as int] && t[1] == s@[at + 1]);
            }
        }
        at
    }
}

/// `needle` occurs in `hay` at position `i`.
pub open spec fn occurs_at(hay: Seq<char>, needle: Seq<char>, i: int) -> bool {
    0 <= i && i + needle.len() <= hay.len() && hay.subrange(i, i + needle.len()) == needle
}

/// `needle` occurs somewhere in `hay` (`str::contains`; the empty needle always does).
pub open spec fn is_infix(needle: Seq<char>, hay: Seq<char>) -> bool {
    exists|i: int| #[trigger] occurs_at(hay, needle, i)
}

/// `hay` begins with `needle` (`str::starts_with`).
pub open spec fn is_prefix(needle: Seq<char>, hay: Seq<char>) -> bool {
    needle.len() <= hay.len() && hay.subrange(0, needle.len() as int) == needle
}

/// Whether `needle` occurs in `hay` at position `i`.
fn occurs_at_exec(hay: &[char], needle: &[char], i: usize) -> (r: bool)
    requires
        i + needle@.len() <= hay@.len(),
    ensures
        r == occurs_at(hay@, needle@, i as int),
{
    let hn: usize = hay.len();
    let mut k: usize = 0;
    while k < needle.len()
        invariant
            i + needle@.len() <= hay@.len(),
            hn == hay@.len(),
            k <= needle@.len(),
            forall|j: int| 0 <= j < k ==> hay@[i + j] == needle@[j],
        decreases needle@.len() - k,
    {
        if hay[i + k] != needle[k] {
            proof {
                assert(hay@.subrange(i as int, i + needle@.len())[k as int] != needle@[k as int]);
            }
            return false;
        }
        k = k + 1;
    }
    proof {
        assert(hay@.subrange(i as int, i + needle@.len()) =~= needle@);
    }
    true
}

/// `str::contains` on character sequences.
pub fn contains_chars(hay: &[char], needle: &[char]) -> (r: bool)
    ensures
        r == is_infix(needle@, hay@),
{
    if needle.len() > hay.len() {
        return false;
    }
    let last = hay.len() - needle.len();
    let mut i: usize = 0;
    loop
        invariant
            needle@.len() <= hay@.len(),
            last == hay@.len() - needle@.len(),
            i <= last,
            forall|j: int| 0 <= j < i ==> !#[trigger] occurs_at(hay@, needle@, j),
        decreases last - i,
    {
        if occurs_at_exec(hay, needle, i) {
            return true;
        }
        if i == last {
            proof {
                assert forall|j: int| !#[trigger] occurs_at(hay@, needle@, j) by {
                    if 0 <= j < i {
                    }
                }
            }
            return false;
        }
        i = i + 1;
    }
}

/// `str::starts_with` on character sequences.
pub fn starts_with_chars(hay: &[char], needle: &[char]) -> (r: bool)
    ensures
        r == is_prefix(needle@, hay@),
{
    if needle.len() > hay.len() {
        return false;
    }
    let r = occurs_at_exec(hay, needle, 0);
    r
}

/// The texts of `ts` joined by `sep` (`[String]::join`).
pub open spec fn join_with(ts: Seq<Seq<char>>, sep: Seq<char>) -> Seq<char>
    decreases ts.len(),
{
    if ts.len() == 0 {
        Seq::empty()
    } else if ts.len() == 1 {
        ts[0]
    } else {
        join_with(ts.drop_last(), sep) + sep + ts.last()
    }
}

/// The text of each string.
pub open spec fn texts(v: Seq<String>) -> Seq<Seq<char>> {
    v.map_values(|s: String| s@)
}

/// Appends the strings of `v` joined by `sep`.
pub fn push_joined(out: &mut String, v: &[String], sep: &str)
    ensures
        final(out)@ == old(out)@ + join_with(texts(v@), sep@),
{
    let ghost start = out@;
    let mut i: usize = 0;
    while i < v.len()
        invariant
            i <= v@.len(),
            out@ == start + join_with(texts(v@.take(i as int)), sep@),
        decreases v@.len() - i,
    {
        if i > 0 {
            push_str(out, sep);
        }
        push_str(out, v[i].as_str());
        proof {
            assert(texts(v@.take(i + 1)).drop_last() =~= texts(v@.take(i as int)));
            assert(texts(v@.take(i + 1)).last() == v@[i as int]@);
            if i == 0 {
                assert(texts(v@.take(1)) =~= seq![v@[0]@]);
            }
        }
        i = i + 1;
    }
    proof {
        assert(v@.take(v@.len() as int) =~= v@);
    }
}

} // verus!
