//! Pattern search over Bosch EDC16 / EDC17 calibration ROMs.

use crate::text::{parse_radix, parse_radix_bounded, str_chars, trim, trim_ws};
use vstd::prelude::*;

verus! {

/// Heuristic pattern matcher for Bosch calibration ROMs.
pub struct BoschMapDetector;

/// `s` without its leading `P` / `p` characters.
pub open spec fn strip_p(s: Seq<char>) -> Seq<char>
    decreases s.len(),
{
    if s.len() > 0 && (s[0] == 'P' || s[0] == 'p') {
        strip_p(s.drop_first())
    } else {
        s
    }
}

/// The 16-bit value a P-code names: its hexadecimal digits after white space and any
/// leading `P`/`p` are removed.
pub open spec fn pcode_value(p: Seq<char>) -> Option<nat> {
    parse_radix(strip_p(trim_ws(p)), 16, 0xFFFF)
}

/// Start of the searched calibration region for an image of `len` bytes.
pub open spec fn dtc_region_start(len: nat) -> nat {
    if len >= 0x20_0000 {
        0x18_0000
    } else {
        0x08_0000
    }
}

/// Whether the two bytes at `pos` are `v` in big- or little-endian order.
pub open spec fn code_at(rom: Seq<u8>, pos: int, v: nat) -> bool {
    let hi = (v / 256) as u8;
    let lo = (v % 256) as u8;
    &&& 0 <= pos
    &&& pos + 1 < rom.len()
    &&& (rom[pos] == hi && rom[pos + 1] == lo) || (rom[pos] == lo && rom[pos + 1] == hi)
}

/// `h` is the only position at or after `start` where the code occurs.
pub open spec fn unique_code_hit(rom: Seq<u8>, start: nat, v: nat, h: int) -> bool {
    &&& start <= h
    &&& code_at(rom, h, v)
    &&& forall|q: int| start <= q && q != h ==> !#[trigger] code_at(rom, q, v)
}

/// What looking up `p` in `rom` answers: nothing when the code does not parse; else the
/// only position at or after the region start where the code occurs, with the mask byte
/// after it, if there is exactly one such position and its mask byte is in the image.
pub open spec fn dtc_offset_answer(rom: Seq<u8>, p: Seq<char>, r: Option<(u32, u8)>) -> bool {
    match pcode_value(p) {
        None => r is None,
        Some(v) => {
            let start = dtc_region_start(rom.len());
            &&& r is Some <==> (start <= rom.len() && exists|h: int|
                unique_code_hit(rom, start, v, h) && h + 2 < rom.len() && h <= u32::MAX)
            &&& r matches Some((a, m)) ==> unique_code_hit(rom, start, v, a as int) && m
                == rom[a + 2]
        },
    }
}

/// On an image of 2 MiB or more the lookup reads nothing before 0x180000: two images of
/// the same length that agree from 0x180000 on give the same answer, whatever the code
/// area before it holds.
pub proof fn lemma_dtc_lookup_ignores_code_area(
    rom1: Seq<u8>,
    rom2: Seq<u8>,
    p: Seq<char>,
    r1: Option<(u32, u8)>,
    r2: Option<(u32, u8)>,
)
    requires
        rom1.len() == rom2.len(),
        rom1.len() >= 0x20_0000,
        forall|q: int| 0x18_0000 <= q < rom1.len() ==> rom1[q] == rom2[q],
        dtc_offset_answer(rom1, p, r1),
        dtc_offset_answer(rom2, p, r2),
    ensures
        r1 == r2,
{
    if let Some(v) = pcode_value(p) {
        let start = dtc_region_start(rom1.len());
        assert(start == 0x18_0000);
        assert forall|q: int| start <= q implies #[trigger] code_at(rom1, q, v) == code_at(rom2, q, v) by {
            if q + 1 < rom1.len() {
                assert(rom1[q] == rom2[q] && rom1[q + 1] == rom2[q + 1]);
            }
        }
        assert forall|h: int| #[trigger] unique_code_hit(rom1, start, v, h) <==> unique_code_hit(rom2, start, v, h) by {
            if start <= h {
                assert(code_at(rom1, h, v) == code_at(rom2, h, v));
                assert((forall|q: int| start <= q && q != h ==> !#[trigger] code_at(rom1, q, v)) <==> (forall|q: int|
                    start <= q && q != h ==> !#[trigger] code_at(rom2, q, v))) by {
                    assert forall|q: int| start <= q && q != h implies code_at(rom1, q, v) == code_at(rom2, q, v) by {}
                }
            }
        }
        if r1 is Some {
            let (a1, m1) = r1->0;
            assert(unique_code_hit(rom2, start, v, a1 as int));
            assert(a1 as int + 2 < rom1.len());
            assert(r2 is Some);
            let (a2, m2) = r2->0;
            assert(code_at(rom2, a2 as int, v));
            assert(a1 == a2);
            assert(rom1[a1 + 2] == rom2[a1 + 2]);
        } else {
            if r2 is Some {
                let (a2, m2) = r2->0;
                assert(unique_code_hit(rom1, start, v, a2 as int));
                assert(a2 as int + 2 < rom2.len());
            }
        }
    }
}

fn strip_p_exec(s: &Vec<char>) -> (r: Vec<char>)
    ensures
        r@ == strip_p(s@),
{
    let mut k: usize = 0;
    proof {
        assert(s@.skip(0) =~= s@);
    }
    while k < s.len() && (s[k] == 'P' || s[k] == 'p')
        invariant
            k <= s@.len(),
            strip_p(s@) == strip_p(s@.skip(k as int)),
        decreases s@.len() - k,
    {
        proof {
            assert(s@.skip(k as int).drop_first() =~= s@.skip(k + 1));
        }
        k = k + 1;
    }
    let mut r: Vec<char> = Vec::new();
    let mut i: usize = k;
    while i < s.len()
        invariant
            k <= i <= s@.len(),
            r@ == s@.subrange(k as int, i as int),
        decreases s@.len() - i,
    {
        r.push(s[i]);
        proof {
            assert(s@.subrange(k as int, i + 1) =~= s@.subrange(k as int, i as int).push(s@[i as int]));
        }
        i = i + 1;
    }
    proof {
        assert(r@ =~= s@.skip(k as int));
    }
    r
}

impl BoschMapDetector {
    /// Locates a raw 2-byte P-code pattern (big- or little-endian) in the calibration
    /// region and returns its offset and the mask byte after it. An inspection
    /// heuristic only: a hit is no evidence of a fault-path entry. `None` when the code
    /// does not parse, the ROM is shorter than the region start, the pattern does not
    /// occur exactly once, or the mask byte lies past the end of the ROM.
    pub fn find_dtc_offset(rom: &[u8], p_code: &str) -> (r: Option<(u32, u8)>)
        ensures
            dtc_offset_answer(rom@, p_code@, r),
    {
        let chars = str_chars(p_code);
        let trimmed = trim(chars.as_slice());
        let digits = strip_p_exec(&trimmed);
        let parsed = parse_radix_bounded(digits.as_slice(), 16, 0xFFFF);
        let v = match parsed {
            None => {
                return None;
            },
            Some(v) => v,
        };
        let hi = (v / 256) as u8;
        let lo = (v % 256) as u8;
        let len = rom.len();
        let start: usize = if len >= 0x20_0000 {
            0x18_0000
        } else {
            0x08_0000
        };
        if start > len {
            return None;
        }
        let mut hit: Option<usize> = None;
        let mut pos: usize = start;
        let last: usize = if len >= 1 {
            len - 1
        } else {
            0
        };
        while pos < last
            invariant
                pcode_value(p_code@) == Some(v as nat),
                v <= 0xFFFF,
                last + 1 == len || (len == 0 && last == 0),
                start <= pos,
                start < last ==> pos <= last,
                len == rom@.len(),
                start <= len,
                start == dtc_region_start(len as nat),
                hi == (v / 256) as u8,
                lo == (v % 256) as u8,
                match hit {
                    None => forall|q: int| start <= q < pos ==> !#[trigger] code_at(rom@, q, v as nat),
                    Some(h) => start <= h < pos && code_at(rom@, h as int, v as nat) && forall|
                        q: int,
                    |
                        start <= q < pos && q != h ==> !#[trigger] code_at(rom@, q, v as nat),
                },
            decreases len - pos,
        {
            let a = rom[pos];
            let b = rom[pos + 1];
            if (a == hi && b == lo) || (a == lo && b == hi) {
                match hit {
                    Some(h) => {
                        proof {
                            assert(code_at(rom@, pos as int, v as nat));
                            assert forall|x: int| !unique_code_hit(rom@, start as nat, v as nat, x) by {
                                if unique_code_hit(rom@, start as nat, v as nat, x) {
                                    if x == h {
                                        assert(!code_at(rom@, pos as int, v as nat));
                                    } else {
                                        assert(!code_at(rom@, h as int, v as nat));
                                    }
                                }
                            }
                        }
                        return None;
                    },
                    None => {
                        hit = Some(pos);
                    },
                }
            }
            pos = pos + 1;
        }
        proof {
            assert forall|q: int| pos <= q implies !#[trigger] code_at(rom@, q, v as nat) by {}
        }
        match hit {
            None => {
                proof {
                    assert forall|x: int| !unique_code_hit(rom@, start as nat, v as nat, x) by {
                        if unique_code_hit(rom@, start as nat, v as nat, x) {
                            assert(code_at(rom@, x, v as nat));
                        }
                    }
                }
                None
            },
            Some(h) => {
                proof {
                    assert(unique_code_hit(rom@, start as nat, v as nat, h as int));
                    assert forall|x: int| unique_code_hit(rom@, start as nat, v as nat, x) implies x
                        == h by {
                        if x != h {
                            assert(!code_at(rom@, x, v as nat));
                        }
                    }
                }
                if h + 2 >= len {
                    return None;
                }
                if h > 0xFFFF_FFFF {
                    return None;
                }
                Some((h as u32, rom[h + 2]))
            },
        }
    }
}

/// Big-endian 16-bit word at `i`.
pub open spec fn word_at(rom: Seq<u8>, i: int) -> nat {
    rom[i] as nat * 256 + rom[i + 1] as nat
}

/// The calibration area `(start, end)` searched in an image of `len` bytes, or `None`
/// for an image too small to hold one (under 256 KiB).
pub open spec fn calibration_area(len: nat) -> Option<(nat, nat)> {
    if len < 0x40000 {
        None
    } else if len >= 0x200000 {
        Some((0x1C0000, if 0x1FFFF0 <= len - 16 { 0x1FFFF0 } else { (len - 16) as nat }))
    } else if len >= 0x100000 {
        Some((0x0E0000, if 0x0FFFF0 <= len - 16 { 0x0FFFF0 } else { (len - 16) as nat }))
    } else {
        Some((0x060000, (len - 16) as nat))
    }
}

/// A plausible boost pressure word (2100..=2600 mbar).
pub open spec fn boost_word(v: nat) -> bool {
    2100 <= v <= 2600
}

/// A neighbour that does not look like part of a pressure table: zero, or outside 1000..=3000.
pub open spec fn lone_neighbour(v: nat) -> bool {
    v == 0 || !(1000 <= v <= 3000)
}

/// The single-value boost limiter candidate test at `i`, searching below `end`.
pub open spec fn svbl_at(rom: Seq<u8>, i: nat, end: nat) -> bool {
    let prev = if i >= 2 { word_at(rom, i - 2) } else { 0 };
    let next = if i + 4 <= end { word_at(rom, (i + 2) as int) } else { 0 };
    &&& boost_word(word_at(rom, i as int))
    &&& lone_neighbour(prev)
    &&& lone_neighbour(next)
}

/// First even step from `i` (by 2) with `i + 2 <= end` where a boost limiter sits.
pub open spec fn first_svbl(rom: Seq<u8>, i: nat, end: nat) -> Option<nat>
    decreases end + 2 - i,
{
    if i + 2 > end {
        None
    } else if svbl_at(rom, i, end) {
        Some(i)
    } else {
        first_svbl(rom, i + 2, end)
    }
}

/// Sixteen strictly increasing engine speeds in 500..=5500 RPM start at `i`.
pub open spec fn rpm_axis_at(rom: Seq<u8>, i: nat) -> bool {
    &&& forall|k: int| 0 <= k < 16 ==> 500 <= #[trigger] word_at(rom, i + 2 * k) <= 5500
    &&& forall|k: int| 1 <= k < 16 ==> word_at(rom, i + 2 * (k - 1)) < #[trigger] word_at(rom, i + 2 * k)
}

/// Sixteen torque words of 100.0..=800.0 Nm at 0.1 Nm per count (1000..=8000) start at `i`.
pub open spec fn torque_row_at(rom: Seq<u8>, i: nat) -> bool {
    forall|k: int| 0 <= k < 16 ==> 1000 <= #[trigger] word_at(rom, i + 2 * k) <= 8000
}

/// A torque limiter (speed axis followed by its torque row) starts at `i`, below `end`.
pub open spec fn torque_limiter_at(rom: Seq<u8>, i: nat, end: nat) -> bool {
    &&& rpm_axis_at(rom, i)
    &&& i + 64 <= end
    &&& torque_row_at(rom, i + 32)
}

/// First even step from `i` with `i + 32 <= end` where a torque limiter starts.
pub open spec fn first_torque_limiter(rom: Seq<u8>, i: nat, end: nat) -> Option<nat>
    decreases end + 32 - i,
{
    if i + 32 > end {
        None
    } else if torque_limiter_at(rom, i, end) {
        Some(i)
    } else {
        first_torque_limiter(rom, i + 2, end)
    }
}

fn word(rom: &[u8], i: usize) -> (r: u16)
    requires
        i + 1 < rom@.len(),
    ensures
        r as nat == word_at(rom@, i as int),
{
    (rom[i] as u16) * 256 + (rom[i + 1] as u16)
}

impl BoschMapDetector {
    /// The calibration area searched in a ROM image of `len` bytes: the last 256 KiB
    /// of a 2 MiB or 1 MiB image (capped 16 bytes before its end), otherwise from
    /// 0x060000 to 16 bytes before the end; `None` below 256 KiB.
    pub fn calibration_area(len: usize) -> (r: Option<(usize, usize)>)
        ensures
            match calibration_area(len as nat) {
                Some((s, e)) => r == Some((s as usize, e as usize)),
                None => r is None,
            },
    {
        if len < 0x40000 {
            return None;
        }
        let (start, end): (usize, usize) = if len >= 0x200000 {
            (0x1C0000, 0x1FFFF0)
        } else if len >= 0x100000 {
            (0x0E0000, 0x0FFFF0)
        } else {
            (0x060000, len - 16)
        };
        let end = if end <= len - 16 {
            end
        } else {
            len - 16
        };
        Some((start, end))
    }

    /// Address of the first single-value boost limiter between `start` and `end`:
    /// a 2100..=2600 mbar word on an even step from `start` whose neighbouring words
    /// are zero or outside 1000..=3000.
    pub fn scan_svbl(rom: &[u8], start: usize, end: usize) -> (r: Option<usize>)
        requires
            end <= rom@.len(),
        ensures
            match first_svbl(rom@, start as nat, end as nat) {
                Some(a) => r == Some(a as usize),
                None => r is None,
            },
    {
        let mut i = start;
        while i <= end && end - i >= 2
            invariant
                end <= rom@.len(),
                first_svbl(rom@, start as nat, end as nat) == first_svbl(rom@, i as nat, end as nat),
            decreases end + 2 - i,
        {
            let val = word(rom, i);
            if 2100 <= val && val <= 2600 {
                let prev: u16 = if i >= 2 {
                    word(rom, i - 2)
                } else {
                    0
                };
                let next: u16 = if end - i >= 4 {
                    word(rom, i + 2)
                } else {
                    0
                };
                if (prev == 0 || !(1000 <= prev && prev <= 3000)) && (next == 0 || !(1000 <= next
                    && next <= 3000)) {
                    return Some(i);
                }
            }
            i = i + 2;
        }
        None
    }

    /// Address of the first torque limiter between `start` and `end`: on an even step
    /// from `start`, sixteen strictly increasing 500..=5500 RPM words followed by
    /// sixteen 1000..=8000 (100.0..=800.0 Nm) words, all below `end`.
    #[verifier::spinoff_prover]
    #[verifier::rlimit(30)]
    pub fn scan_torque_limiter(rom: &[u8], start: usize, end: usize) -> (r: Option<usize>)
        requires
            end <= rom@.len(),
        ensures
            match first_torque_limiter(rom@, start as nat, end as nat) {
                Some(a) => r == Some(a as usize),
                None => r is None,
            },
    {
        let mut i = start;
        while i <= end && end - i >= 32
            invariant
                end <= rom@.len(),
                first_torque_limiter(rom@, start as nat, end as nat) == first_torque_limiter(
                    rom@,
                    i as nat,
                    end as nat,
                ),
            decreases end + 32 - i,
        {
            let mut is_rpm = true;
            let mut prev_rpm: u16 = 0;
            let mut step: usize = 0;
            while step < 16 && is_rpm
                invariant
                    i + 32 <= end <= rom@.len(),
                    step <= 16,
                    is_rpm ==> forall|k: int| 0 <= k < step ==> 500 <= #[trigger] word_at(rom@, i + 2 * k) <= 5500,
                    is_rpm ==> forall|k: int| 1 <= k < step ==> word_at(rom@, i + 2 * (k - 1)) < #[trigger] word_at(rom@, i + 2 * k),
                    is_rpm && step > 0 ==> prev_rpm == word_at(rom@, i + 2 * (step - 1)),
                    !is_rpm ==> !rpm_axis_at(rom@, i as nat),
                decreases 16 - step + (if is_rpm { 1int } else { 0 }),
            {
                let rpm = word(rom, i + step * 2);
                if !(500 <= rpm && rpm <= 5500) || (step > 0 && rpm <= prev_rpm) {
                    is_rpm = false;
                    proof {
                        if step > 0 && rpm <= prev_rpm && 500 <= rpm <= 5500 {
                            assert(!(word_at(rom@, i + 2 * (step - 1)) < word_at(rom@, i + 2 * step)));
                        } else {
                            assert(!(500 <= word_at(rom@, i + 2 * step) <= 5500));
                        }
                    }
                } else {
                    prev_rpm = rpm;
                    step = step + 1;
                }
            }
            if is_rpm && end - i >= 64 {
                let mut is_torque = true;
                let mut k: usize = 0;
                while k < 16 && is_torque
                    invariant
                        i + 64 <= end <= rom@.len(),
                        k <= 16,
                        is_torque ==> forall|j: int| 0 <= j < k ==> 1000 <= #[trigger] word_at(rom@, i + 32 + 2 * j) <= 8000,
                        !is_torque ==> !torque_row_at(rom@, (i + 32) as nat),
                    decreases 16 - k + (if is_torque { 1int } else { 0 }),
                {
                    let raw = word(rom, i + 32 + k * 2);
                    if !(1000 <= raw && raw <= 8000) {
                        is_torque = false;
                        proof {
                            assert(!(1000 <= word_at(rom@, (i + 32) + 2 * k) <= 8000));
                        }
                    } else {
                        k = k + 1;
                    }
                }
                if is_torque {
                    proof {
                        assert forall|j: int| 0 <= j < 16 implies 1000 <= #[trigger] word_at(rom@, (i + 32) + 2 * j) <= 8000 by {
                            assert(word_at(rom@, (i + 32) + 2 * j) == word_at(rom@, i + 32 + 2 * j));
                        }
                    }
                    return Some(i);
                }
            }
            i = i + 2;
        }
        None
    }
}

} // verus!
