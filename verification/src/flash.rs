//! Flashing state, flash packages, firmware signatures read from ROM images, and the
//! local firmware vault.

use crate::digest::{crc32, crc32_of, sha256, sha256_of};
use crate::i18n::opt_text;
use crate::text::{ascii_string, chars_eq, lower_of, str_chars, to_lower, ascii_text, lower_hex_bytes, lower_hex_string, push_str, string_of, trim, trim_ws};
use vstd::prelude::*;
use vstd::string::StringSliceAdditionalSpecFns;
use vstd::utf8::{encode_utf8, is_char_boundary};

verus! {

/// States of the flashing state machine.
#[derive(Debug, Clone, Copy, PartialEq, Eq)]
pub enum FlashState {
    Idle,
    Staging,
    Verifying,
    Locked,
    SessionExtended,
    SecurityUnlocked,
    BusSilenced,
    SessionProgramming,
    Erasing,
    Transferring,
    TransferExited,
    VerifyingChecksum,
    ResettingEcu,
    Completed,
    Failed,
    Aborted,
}

/// Whether a flash is under way: every state but idle and the three final ones.
pub open spec fn flash_locked(s: FlashState) -> bool {
    !(s == FlashState::Idle || s == FlashState::Completed || s == FlashState::Failed || s
        == FlashState::Aborted)
}

impl FlashState {
    /// Whether the flashing API is locked by a running flash.
    pub fn is_locked(&self) -> (r: bool)
        ensures
            r == flash_locked(*self),
    {
        match self {
            FlashState::Idle | FlashState::Completed | FlashState::Failed | FlashState::Aborted => false,
            _ => true,
        }
    }
}

/// Progress of a flash.
#[derive(Debug, Clone, PartialEq)]
pub struct FlashProgress {
    pub state: FlashState,
    pub percentage: u8,
    pub current_block: usize,
    pub total_blocks: usize,
    pub bytes_written: usize,
    pub total_bytes: usize,
    pub log: String,
    pub error_message: Option<String>,
}

impl Default for FlashProgress {
    fn default() -> (r: Self)
        ensures
            r.state == FlashState::Idle,
            r.percentage == 0,
            r.current_block == 0,
            r.total_blocks == 0,
            r.bytes_written == 0,
            r.total_bytes == 0,
            r.log@ == "Idle - No flash in progress"@,
            r.error_message is None,
    {
        let mut log = String::new();
        push_str(&mut log, "Idle - No flash in progress");
        FlashProgress {
            state: FlashState::Idle,
            percentage: 0,
            current_block: 0,
            total_blocks: 0,
            bytes_written: 0,
            total_bytes: 0,
            log,
            error_message: None,
        }
    }
}

/// What a flash package declares about its image.
#[derive(Debug, Clone, PartialEq, Eq)]
pub struct FlashPackageManifest {
    pub target_module: String,
    pub expected_hw_id: String,
    pub expected_sw_id: String,
    pub sha256_checksum: String,
    pub crc32_checksum: u32,
    pub flash_start_address: u32,
    pub flash_length: u32,
    pub block_size: usize,
}

/// Identification data read from a firmware image.
#[derive(Debug, Clone, PartialEq, Eq)]
pub struct FirmwareSignatures {
    pub bosch_hw_id: Option<String>,
    pub bosch_sw_id: Option<String>,
    pub oem_part_number: Option<String>,
    pub project_name: Option<String>,
    pub file_size_bytes: usize,
    pub sha256_checksum: String,
    pub crc32_checksum: u32,
}

/// The value of [`FirmwareSignatures`].
pub struct SignaturesView {
    pub bosch_hw_id: Option<Seq<char>>,
    pub bosch_sw_id: Option<Seq<char>>,
    pub oem_part_number: Option<Seq<char>>,
    pub project_name: Option<Seq<char>>,
    pub file_size_bytes: usize,
    pub sha256_checksum: Seq<char>,
    pub crc32_checksum: u32,
}

impl View for FirmwareSignatures {
    type V = SignaturesView;

    open spec fn view(&self) -> SignaturesView {
        SignaturesView {
            bosch_hw_id: opt_text(self.bosch_hw_id),
            bosch_sw_id: opt_text(self.bosch_sw_id),
            oem_part_number: opt_text(self.oem_part_number),
            project_name: opt_text(self.project_name),
            file_size_bytes: self.file_size_bytes,
            sha256_checksum: self.sha256_checksum@,
            crc32_checksum: self.crc32_checksum,
        }
    }
}

/// Bytes of an image that are searched for identification (the first 4 MiB).
pub const SIGNATURE_SCAN_LIMIT: usize = 4 * 1024 * 1024;

/// The first `i` in `from..n` with `p(i)`.
pub open spec fn first_where(n: nat, from: nat, p: spec_fn(nat) -> bool) -> Option<nat>
    decreases n - from,
{
    if from >= n {
        None
    } else if p(from) {
        Some(from)
    } else {
        first_where(n, from + 1, p)
    }
}

proof fn lemma_first_where_none(n: nat, from: nat, p: spec_fn(nat) -> bool)
    requires
        forall|i: nat| from <= i < n ==> !#[trigger] p(i),
    ensures
        first_where(n, from, p) is None,
    decreases n - from,
{
    if from < n {
        lemma_first_where_none(n, from + 1, p);
    }
}

proof fn lemma_first_where_found(n: nat, from: nat, p: spec_fn(nat) -> bool)
    ensures
        first_where(n, from, p) matches Some(i) ==> from <= i < n && p(i) && forall|j: nat|
            from <= j < i ==> !#[trigger] p(j),
    decreases n - from,
{
    if from < n {
        lemma_first_where_found(n, from + 1, p);
    }
}

/// Whether `b` is an ASCII digit.
pub open spec fn is_digit_byte(b: u8) -> bool {
    48 <= b <= 57
}

/// Whether `data[from..to]` are all ASCII digits.
pub open spec fn digits_between(data: Seq<u8>, from: int, to: int) -> bool {
    forall|k: int| from <= k < to ==> is_digit_byte(#[trigger] data[k])
}

/// A 10-digit Bosch number at `i` starting with `p` or `q`, wholly before `limit`.
pub open spec fn bosch_number_at(data: Seq<u8>, limit: nat, i: nat, p: Seq<u8>, q: Seq<u8>) -> bool {
    let j = i as int;
    &&& j + 10 <= limit <= data.len()
    &&& (data.subrange(j, j + 4) == p || data.subrange(j, j + 4) == q)
    &&& digits_between(data, j, j + 10)
}

/// `0281` and `0261`, the prefixes of Bosch hardware numbers.
pub open spec fn hw_prefixes() -> (Seq<u8>, Seq<u8>) {
    (seq![48u8, 50, 56, 49], seq![48u8, 50, 54, 49])
}

/// `1037` and `1039`, the prefixes of Bosch software numbers.
pub open spec fn sw_prefixes() -> (Seq<u8>, Seq<u8>) {
    (seq![49u8, 48, 51, 55], seq![49u8, 48, 51, 57])
}

/// A Mercedes part number `A ddd ddd dd dd` at `i`, wholly before `limit`.
pub open spec fn spaced_part_number_at(data: Seq<u8>, limit: nat, i: nat) -> bool {
    let j = i as int;
    &&& j + 15 <= limit <= data.len()
    &&& data[j] == 65u8
    &&& data[j + 1] == 32u8
    &&& digits_between(data, j + 2, j + 5)
    &&& data[j + 5] == 32u8
    &&& digits_between(data, j + 6, j + 9)
    &&& data[j + 9] == 32u8
    &&& digits_between(data, j + 10, j + 12)
    &&& data[j + 12] == 32u8
    &&& digits_between(data, j + 13, j + 15)
}

/// A Mercedes part number `Adddddddddd` at `i`, wholly before `limit`.
pub open spec fn compact_part_number_at(data: Seq<u8>, limit: nat, i: nat) -> bool {
    let j = i as int;
    &&& j + 11 <= limit <= data.len()
    &&& data[j] == 65u8
    &&& digits_between(data, j + 1, j + 11)
}

/// The project-name prefixes, in search order.
pub open spec fn project_prefix(k: nat) -> Seq<u8> {
    if k == 0 {
        "CR4-"@.map_values(|c: char| c as u8)
    } else if k == 1 {
        "CR3-"@.map_values(|c: char| c as u8)
    } else if k == 2 {
        "CR5-"@.map_values(|c: char| c as u8)
    } else if k == 3 {
        "CR6-"@.map_values(|c: char| c as u8)
    } else if k == 4 {
        "EDC16"@.map_values(|c: char| c as u8)
    } else if k == 5 {
        "EDC17"@.map_values(|c: char| c as u8)
    } else if k == 6 {
        "ME9."@.map_values(|c: char| c as u8)
    } else {
        "CRD2"@.map_values(|c: char| c as u8)
    }
}

/// Number of project-name prefixes.
pub const PROJECT_PREFIX_COUNT: usize = 8;

/// Whether `pat` occurs at `i`, wholly before `limit`.
pub open spec fn occurs_at(data: Seq<u8>, limit: nat, pat: Seq<u8>, i: nat) -> bool {
    let j = i as int;
    &&& j + pat.len() <= limit <= data.len()
    &&& data.subrange(j, j + pat.len()) == pat
}

/// Whether a byte continues a project name: printable ASCII other than `;`.
pub open spec fn name_byte(b: u8) -> bool {
    0x20 <= b <= 0x7E && b != 59u8
}

/// End of the project name starting at `pos`: name bytes from `e` on, at most 40 bytes
/// from `pos`.
pub open spec fn name_end(data: Seq<u8>, pos: nat, e: nat) -> nat
    decreases pos + 40 - e,
{
    if e < data.len() && e < pos + 40 && name_byte(data[e as int]) {
        name_end(data, pos, e + 1)
    } else {
        e
    }
}

/// The project name found with prefix `k`, if it is longer than the prefix.
pub open spec fn project_candidate(data: Seq<u8>, limit: nat, k: nat) -> Option<Seq<char>> {
    let pat = project_prefix(k);
    match first_where(limit, 0, |i: nat| occurs_at(data, limit, pat, i)) {
        None => None,
        Some(pos) => {
            let e = name_end(data, pos, pos);
            if e > pos + pat.len() {
                Some(trim_ws(ascii_text(data.subrange(pos as int, e as int))))
            } else {
                None
            }
        },
    }
}

/// The project name of the first prefix, from `k` on, that yields one.
pub open spec fn project_from(data: Seq<u8>, limit: nat, k: nat) -> Option<Seq<char>>
    decreases PROJECT_PREFIX_COUNT - k,
{
    if k >= PROJECT_PREFIX_COUNT {
        None
    } else {
        match project_candidate(data, limit, k) {
            Some(s) => Some(s),
            None => project_from(data, limit, k + 1),
        }
    }
}

/// The text of a number found at a position, `len` bytes long.
pub open spec fn found_text(data: Seq<u8>, at: Option<nat>, len: nat) -> Option<Seq<char>> {
    match at {
        Some(i) => Some(ascii_text(data.subrange(i as int, i as int + len))),
        None => None,
    }
}

/// The signatures of an image.
pub open spec fn signatures_of(data: Seq<u8>) -> SignaturesView {
    let limit: nat = if data.len() < SIGNATURE_SCAN_LIMIT {
        data.len()
    } else {
        SIGNATURE_SCAN_LIMIT as nat
    };
    let hw = first_where(
        limit,
        0,
        |i: nat| bosch_number_at(data, limit, i, hw_prefixes().0, hw_prefixes().1),
    );
    let sw = first_where(
        limit,
        0,
        |i: nat| bosch_number_at(data, limit, i, sw_prefixes().0, sw_prefixes().1),
    );
    let spaced = first_where(limit, 0, |i: nat| spaced_part_number_at(data, limit, i));
    let compact = first_where(limit, 0, |i: nat| compact_part_number_at(data, limit, i));
    SignaturesView {
        bosch_hw_id: found_text(data, hw, 10),
        bosch_sw_id: found_text(data, sw, 10),
        oem_part_number: if spaced is Some {
            found_text(data, spaced, 15)
        } else {
            found_text(data, compact, 11)
        },
        project_name: project_from(data, limit, 0),
        file_size_bytes: data.len() as usize,
        sha256_checksum: lower_hex_bytes(sha256_of(data)),
        crc32_checksum: crc32_of(data),
    }
}

fn digits_in(data: &[u8], from: usize, to: usize) -> (r: bool)
    requires
        from <= to <= data@.len(),
    ensures
        r == digits_between(data@, from as int, to as int),
{
    let mut k: usize = from;
    while k < to
        invariant
            from <= k <= to <= data@.len(),
            digits_between(data@, from as int, k as int),
        decreases to - k,
    {
        if !(48 <= data[k] && data[k] <= 57) {
            return false;
        }
        k = k + 1;
    }
    true
}

fn bytes_at(data: &[u8], at: usize, pat: &[u8]) -> (r: bool)
    requires
        at + pat@.len() <= data@.len(),
    ensures
        r == (data@.subrange(at as int, at + pat@.len()) == pat@),
{
    let n = data.len();
    let mut k: usize = 0;
    while k < pat.len()
        invariant
            k <= pat@.len(),
            n == data@.len(),
            at + pat@.len() <= data@.len(),
            forall|j: int| 0 <= j < k ==> data@[at + j] == pat@[j],
        decreases pat@.len() - k,
    {
        if data[at + k] != pat[k] {
            proof {
                assert(data@.subrange(at as int, at + pat@.len())[k as int] != pat@[k as int]);
            }
            return false;
        }
        k = k + 1;
    }
    proof {
        assert(data@.subrange(at as int, at + pat@.len()) =~= pat@);
    }
    true
}

fn bosch_number_exec(data: &[u8], limit: usize, i: usize, p: &[u8], q: &[u8]) -> (r: bool)
    requires
        i + 10 <= limit <= data@.len(),
        p@.len() == 4,
        q@.len() == 4,
    ensures
        r == bosch_number_at(data@, limit as nat, i as nat, p@, q@),
{
    (bytes_at(data, i, p) || bytes_at(data, i, q)) && digits_in(data, i, i + 10)
}

fn spaced_exec(data: &[u8], limit: usize, i: usize) -> (r: bool)
    requires
        i + 15 <= limit <= data@.len(),
    ensures
        r == spaced_part_number_at(data@, limit as nat, i as nat),
{
    data[i] == 65 && data[i + 1] == 32 && digits_in(data, i + 2, i + 5) && data[i + 5] == 32
        && digits_in(data, i + 6, i + 9) && data[i + 9] == 32 && digits_in(data, i + 10, i + 12)
        && data[i + 12] == 32 && digits_in(data, i + 13, i + 15)
}

fn compact_exec(data: &[u8], limit: usize, i: usize) -> (r: bool)
    requires
        i + 11 <= limit <= data@.len(),
    ensures
        r == compact_part_number_at(data@, limit as nat, i as nat),
{
    data[i] == 65 && digits_in(data, i + 1, i + 11)
}

fn text_of(data: &[u8], from: usize, to: usize) -> (r: String)
    requires
        from <= to <= data@.len(),
    ensures
        r@ == ascii_text(data@.subrange(from as int, to as int)),
{
    let v = ascii_string(data, from, to);
    string_of(v.as_slice())
}

fn find_bosch_number(data: &[u8], limit: usize, p: &[u8], q: &[u8]) -> (r: Option<String>)
    requires
        limit <= data@.len(),
        p@.len() == 4,
        q@.len() == 4,
    ensures
        opt_text(r) == found_text(
            data@,
            first_where(
                limit as nat,
                0,
                |i: nat| bosch_number_at(data@, limit as nat, i, p@, q@),
            ),
            10,
        ),
{
    let ghost pred = |i: nat| bosch_number_at(data@, limit as nat, i, p@, q@);
    let mut i: usize = 0;
    while limit >= 10 && i <= limit - 10
        invariant
            limit <= data@.len(),
            p@.len() == 4,
            q@.len() == 4,
            pred == (|i: nat| bosch_number_at(data@, limit as nat, i, p@, q@)),
            first_where(limit as nat, 0, pred) == first_where(limit as nat, i as nat, pred),
        decreases limit - i,
    {
        if bosch_number_exec(data, limit, i, p, q) {
            return Some(text_of(data, i, i + 10));
        }
        i = i + 1;
    }
    proof {
        lemma_first_where_none(limit as nat, i as nat, pred);
    }
    None
}

fn find_spaced(data: &[u8], limit: usize) -> (r: Option<String>)
    requires
        limit <= data@.len(),
    ensures
        opt_text(r) == found_text(
            data@,
            first_where(limit as nat, 0, |i: nat| spaced_part_number_at(data@, limit as nat, i)),
            15,
        ),
{
    let ghost pred = |i: nat| spaced_part_number_at(data@, limit as nat, i);
    let mut i: usize = 0;
    while limit >= 15 && i <= limit - 15
        invariant
            limit <= data@.len(),
            pred == (|i: nat| spaced_part_number_at(data@, limit as nat, i)),
            first_where(limit as nat, 0, pred) == first_where(limit as nat, i as nat, pred),
        decreases limit - i,
    {
        if spaced_exec(data, limit, i) {
            return Some(text_of(data, i, i + 15));
        }
        i = i + 1;
    }
    proof {
        lemma_first_where_none(limit as nat, i as nat, pred);
    }
    None
}

fn find_compact(data: &[u8], limit: usize) -> (r: Option<String>)
    requires
        limit <= data@.len(),
    ensures
        opt_text(r) == found_text(
            data@,
            first_where(limit as nat, 0, |i: nat| compact_part_number_at(data@, limit as nat, i)),
            11,
        ),
{
    let ghost pred = |i: nat| compact_part_number_at(data@, limit as nat, i);
    let mut i: usize = 0;
    while limit >= 11 && i <= limit - 11
        invariant
            limit <= data@.len(),
            pred == (|i: nat| compact_part_number_at(data@, limit as nat, i)),
            first_where(limit as nat, 0, pred) == first_where(limit as nat, i as nat, pred),
        decreases limit - i,
    {
        if compact_exec(data, limit, i) {
            return Some(text_of(data, i, i + 11));
        }
        i = i + 1;
    }
    proof {
        lemma_first_where_none(limit as nat, i as nat, pred);
    }
    None
}

fn project_prefix_exec(k: usize) -> (r: &'static str)
    requires
        k < PROJECT_PREFIX_COUNT,
    ensures
        r@.map_values(|c: char| c as u8) == project_prefix(k as nat),
        r@.len() <= 5,
        r@.len() >= 4,
{
    let r = if k == 0 {
        "CR4-"
    } else if k == 1 {
        "CR3-"
    } else if k == 2 {
        "CR5-"
    } else if k == 3 {
        "CR6-"
    } else if k == 4 {
        "EDC16"
    } else if k == 5 {
        "EDC17"
    } else if k == 6 {
        "ME9."
    } else {
        "CRD2"
    };
    proof {
        reveal_strlit("CR4-");
        reveal_strlit("CR3-");
        reveal_strlit("CR5-");
        reveal_strlit("CR6-");
        reveal_strlit("EDC16");
        reveal_strlit("EDC17");
        reveal_strlit("ME9.");
        reveal_strlit("CRD2");
    }
    r
}

fn ascii_bytes_of(s: &str) -> (r: Vec<u8>)
    requires
        s@.len() <= 5,
    ensures
        r@ == s@.map_values(|c: char| c as u8),
{
    let chars = crate::text::str_chars(s);
    let mut r: Vec<u8> = Vec::new();
    let mut i: usize = 0;
    while i < chars.len()
        invariant
            chars@ == s@,
            i <= chars@.len(),
            r@ == s@.take(i as int).map_values(|c: char| c as u8),
        decreases chars@.len() - i,
    {
        r.push(chars[i] as u8);
        proof {
            assert(s@.take(i + 1).map_values(|c: char| c as u8) =~= s@.take(i as int).map_values(
                |c: char| c as u8,
            ).push(s@[i as int] as u8));
        }
        i = i + 1;
    }
    proof {
        assert(s@.take(i as int) =~= s@);
    }
    r
}

fn project_candidate_exec(data: &[u8], limit: usize, k: usize) -> (r: Option<String>)
    requires
        limit <= data@.len(),
        k < PROJECT_PREFIX_COUNT,
    ensures
        opt_text(r) == project_candidate(data@, limit as nat, k as nat),
{
    let pat_str = project_prefix_exec(k);
    let pat = ascii_bytes_of(pat_str);
    let ghost pred = |i: nat| occurs_at(data@, limit as nat, project_prefix(k as nat), i);
    let mut i: usize = 0;
    let mut found: Option<usize> = None;
    while found.is_none() && limit >= pat.len() && i <= limit - pat.len()
        invariant
            limit <= data@.len(),
            pat@ == project_prefix(k as nat),
            pat@.len() <= 5,
            pat@.len() >= 4,
            pred == (|i: nat| occurs_at(data@, limit as nat, project_prefix(k as nat), i)),
            found is None ==> first_where(limit as nat, 0, pred) == first_where(
                limit as nat,
                i as nat,
                pred,
            ),
            found matches Some(p) ==> first_where(limit as nat, 0, pred) == Some(p as nat),
        decreases limit - i + if found is None {
            1int
        } else {
            0int
        },
    {
        if bytes_at(data, i, pat.as_slice()) {
            proof {
                assert(pred(i as nat));
                assert(first_where(limit as nat, i as nat, pred) == Some(i as nat));
            }
            found = Some(i);
        } else {
            i = i + 1;
        }
    }
    let pos = match found {
        None => {
            proof {
                lemma_first_where_none(limit as nat, i as nat, pred);
            }
            return None;
        },
        Some(p) => p,
    };
    proof {
        lemma_first_where_found(limit as nat, 0, pred);
        assert(pred(pos as nat));
    }
    let len = data.len();
    let mut end: usize = pos;
    while end < len && end - pos < 40 && 0x20 <= data[end] && data[end] <= 0x7E && data[end] != 59
        invariant
            pos <= end <= pos + 40,
            end <= len,
            pos + pat@.len() <= len,
            len == data@.len(),
            name_end(data@, pos as nat, end as nat) == name_end(data@, pos as nat, pos as nat),
        decreases pos + 40 - end,
    {
        end = end + 1;
    }
    if end > pos + pat.len() {
        let t = ascii_string(data, pos, end);
        let tr = trim(t.as_slice());
        Some(string_of(tr.as_slice()))
    } else {
        None
    }
}

impl FirmwareSignatures {
    /// Reads the identification of a firmware image: the first Bosch hardware
    /// (`0281`/`0261`) and software (`1037`/`1039`) numbers, the Mercedes part number
    /// (spaced form first, else compact), the project name after the first prefix that
    /// yields one, all within the first 4 MiB; the size, SHA-256 and CRC-32 of the
    /// whole image.
    pub fn extract(data: &[u8]) -> (r: Self)
        ensures
            r@ == signatures_of(data@),
    {
        let digest = sha256(data);
        let sha256_checksum = lower_hex_string(digest.as_slice());
        let crc32_checksum = crc32(data);
        let len = data.len();
        let limit = if len < SIGNATURE_SCAN_LIMIT {
            len
        } else {
            SIGNATURE_SCAN_LIMIT
        };
        let hw_p: [u8; 4] = [48, 50, 56, 49];
        let hw_q: [u8; 4] = [48, 50, 54, 49];
        let sw_p: [u8; 4] = [49, 48, 51, 55];
        let sw_q: [u8; 4] = [49, 48, 51, 57];
        proof {
            assert(hw_p@ =~= hw_prefixes().0);
            assert(hw_q@ =~= hw_prefixes().1);
            assert(sw_p@ =~= sw_prefixes().0);
            assert(sw_q@ =~= sw_prefixes().1);
        }
        let bosch_hw_id = find_bosch_number(data, limit, &hw_p, &hw_q);
        let bosch_sw_id = find_bosch_number(data, limit, &sw_p, &sw_q);
        let spaced = find_spaced(data, limit);
        let oem_part_number = match spaced {
            Some(s) => Some(s),
            None => find_compact(data, limit),
        };
        let mut project_name: Option<String> = None;
        let mut k: usize = 0;
        while project_name.is_none() && k < PROJECT_PREFIX_COUNT
            invariant
                limit <= data@.len(),
                k <= PROJECT_PREFIX_COUNT,
                project_name is None ==> project_from(data@, limit as nat, 0) == project_from(
                    data@,
                    limit as nat,
                    k as nat,
                ),
                project_name is Some ==> opt_text(project_name) == project_from(
                    data@,
                    limit as nat,
                    0,
                ),
            decreases PROJECT_PREFIX_COUNT - k + if project_name is None {
                1int
            } else {
                0int
            },
        {
            let c = project_candidate_exec(data, limit, k);
            if c.is_some() {
                project_name = c;
            } else {
                k = k + 1;
            }
        }
        let r = FirmwareSignatures {
            bosch_hw_id,
            bosch_sw_id,
            oem_part_number,
            project_name,
            file_size_bytes: len,
            sha256_checksum,
            crc32_checksum,
        };
        proof {
            assert(r@ =~= signatures_of(data@));
        }
        r
    }
}

/// Compatibility of a ROM image with a connected ECU.
#[derive(Debug, Clone, Copy, PartialEq, Eq)]
pub enum RomCompatibilityVerdict {
    Match,
    CalibrationUpdate,
    HardwareMismatch,
    EngineMismatch,
    Unknown,
}

/// Inspection of a ROM image against a connected ECU.
#[derive(Debug, Clone, PartialEq, Eq)]
pub struct RomInspectionReport {
    pub signatures: FirmwareSignatures,
    pub ecu_hw_id: Option<String>,
    pub ecu_sw_id: Option<String>,
    pub ecu_oem_num: Option<String>,
    pub verdict: RomCompatibilityVerdict,
    pub can_flash: bool,
    pub risk_explanation: String,
}

/// A firmware binary or container found in the local vault.
#[derive(Debug, Clone, PartialEq, Eq)]
pub struct FirmwareVaultEntry {
    pub file_path: String,
    pub filename: String,
    pub file_size_bytes: usize,
    pub format: String,
    pub signatures: FirmwareSignatures,
}

/// The value of a [`FirmwareVaultEntry`].
pub struct VaultEntryView {
    pub file_path: Seq<char>,
    pub filename: Seq<char>,
    pub file_size_bytes: usize,
    pub format: Seq<char>,
    pub signatures: SignaturesView,
}

impl View for FirmwareVaultEntry {
    type V = VaultEntryView;

    open spec fn view(&self) -> VaultEntryView {
        VaultEntryView {
            file_path: self.file_path@,
            filename: self.filename@,
            file_size_bytes: self.file_size_bytes,
            format: self.format@,
            signatures: self.signatures@,
        }
    }
}

/// A vault file proposed for a connected ECU.
#[derive(Debug, Clone, PartialEq, Eq)]
pub struct FirmwareUpgradeRecommendation {
    pub target_module: String,
    pub live_hw_id: String,
    pub live_sw_id: String,
    pub recommended_file: FirmwareVaultEntry,
    pub reason: String,
    pub can_stage: bool,
}

/// The local firmware vault.
pub struct FirmwareVault;

/// Format name of a vault file by its (lower-case) extension, for the extensions the
/// vault holds.
pub open spec fn vault_format(ext: Seq<char>) -> Option<Seq<char>> {
    if ext == "bin"@ || ext == "rom"@ {
        Some("Raw Flash Binary (.bin)"@)
    } else if ext == "cff"@ {
        Some("Caesar Flash Container (.cff)"@)
    } else if ext == "smr-f"@ {
        Some("Modular Flash Container (.smr-f)"@)
    } else if ext == "fls"@ {
        Some("Binary Calibration (.fls)"@)
    } else {
        None
    }
}

/// ASCII lower-case of a byte.
pub open spec fn lower_byte(b: u8) -> u8 {
    if 65 <= b <= 90 {
        (b + 32) as u8
    } else {
        b
    }
}

/// Byte strings equal up to ASCII case.
pub open spec fn eq_ignore_ascii_case(a: Seq<u8>, b: Seq<u8>) -> bool {
    &&& a.len() == b.len()
    &&& forall|i: int| 0 <= i < a.len() ==> lower_byte(#[trigger] a[i]) == lower_byte(b[i])
}

/// What the vault makes of one entry when looking for an upgrade.
pub enum EntryVerdict {
    /// Not a candidate.
    Skip,
    /// Same hardware, other software: recommended.
    Recommend,
    /// The hardware IDs would be cut inside a character.
    CutsChar,
}

/// The verdict on an entry: its hardware ID and the live one agree (ASCII case aside)
/// on their common byte length, at least 8, and its software ID differs from the live one.
pub open spec fn entry_verdict(e: VaultEntryView, live_hw: Seq<char>, live_sw: Seq<char>) -> EntryVerdict {
    match e.signatures.bosch_hw_id {
        None => EntryVerdict::Skip,
        Some(h) => {
            let eb = encode_utf8(h);
            let lb = encode_utf8(live_hw);
            let n = if eb.len() < lb.len() {
                eb.len()
            } else {
                lb.len()
            };
            if n < 8 {
                EntryVerdict::Skip
            } else if !is_char_boundary(eb, n as int) || !is_char_boundary(lb, n as int) {
                EntryVerdict::CutsChar
            } else if !eq_ignore_ascii_case(eb.take(n as int), lb.take(n as int)) {
                EntryVerdict::Skip
            } else {
                match e.signatures.bosch_sw_id {
                    None => EntryVerdict::Skip,
                    Some(sw) => if eq_ignore_ascii_case(encode_utf8(sw), encode_utf8(live_sw)) {
                        EntryVerdict::Skip
                    } else {
                        EntryVerdict::Recommend
                    },
                }
            }
        },
    }
}

/// Outcome of the upgrade search over entries `from..`.
pub enum UpgradeSearch {
    /// Entry `i` is recommended.
    Found(nat),
    /// No entry is.
    NotFound,
    /// An entry before any recommendation would cut a hardware ID inside a character.
    CutsChar,
}

/// The first entry from `from` on that is recommended, unless one before it cuts a
/// character.
pub open spec fn upgrade_search(
    entries: Seq<VaultEntryView>,
    live_hw: Seq<char>,
    live_sw: Seq<char>,
    from: nat,
) -> UpgradeSearch
    decreases entries.len() - from,
{
    if from >= entries.len() {
        UpgradeSearch::NotFound
    } else {
        match entry_verdict(entries[from as int], live_hw, live_sw) {
            EntryVerdict::Recommend => UpgradeSearch::Found(from),
            EntryVerdict::CutsChar => UpgradeSearch::CutsChar,
            EntryVerdict::Skip => upgrade_search(entries, live_hw, live_sw, from + 1),
        }
    }
}

/// The views of a slice of entries.
pub open spec fn entry_views(entries: Seq<FirmwareVaultEntry>) -> Seq<VaultEntryView> {
    entries.map_values(|e: FirmwareVaultEntry| e@)
}

fn clone_opt(o: &Option<String>) -> (r: Option<String>)
    ensures
        opt_text(r) == opt_text(*o),
{
    match o {
        Some(s) => Some(s.clone()),
        None => None,
    }
}

fn clone_signatures(s: &FirmwareSignatures) -> (r: FirmwareSignatures)
    ensures
        r@ == s@,
{
    FirmwareSignatures {
        bosch_hw_id: clone_opt(&s.bosch_hw_id),
        bosch_sw_id: clone_opt(&s.bosch_sw_id),
        oem_part_number: clone_opt(&s.oem_part_number),
        project_name: clone_opt(&s.project_name),
        file_size_bytes: s.file_size_bytes,
        sha256_checksum: s.sha256_checksum.clone(),
        crc32_checksum: s.crc32_checksum,
    }
}

fn clone_entry(e: &FirmwareVaultEntry) -> (r: FirmwareVaultEntry)
    ensures
        r@ == e@,
{
    FirmwareVaultEntry {
        file_path: e.file_path.clone(),
        filename: e.filename.clone(),
        file_size_bytes: e.file_size_bytes,
        format: e.format.clone(),
        signatures: clone_signatures(&e.signatures),
    }
}

pub(crate) fn eq_ignore_case_bytes(a: &[u8], b: &[u8]) -> (r: bool)
    ensures
        r == eq_ignore_ascii_case(a@, b@),
{
    if a.len() != b.len() {
        return false;
    }
    let mut i: usize = 0;
    while i < a.len()
        invariant
            i <= a@.len() == b@.len(),
            forall|k: int| 0 <= k < i ==> lower_byte(#[trigger] a@[k]) == lower_byte(b@[k]),
        decreases a@.len() - i,
    {
        let x = a[i];
        let y = b[i];
        let lx = if 65 <= x && x <= 90 {
            x + 32
        } else {
            x
        };
        let ly = if 65 <= y && y <= 90 {
            y + 32
        } else {
            y
        };
        if lx != ly {
            return false;
        }
        i = i + 1;
    }
    true
}

fn entry_verdict_exec(e: &FirmwareVaultEntry, live_hw_id: &str, live_sw_id: &str) -> (r: EntryVerdictOut)
    ensures
        verdict_out_matches(r, entry_verdict(e@, live_hw_id@, live_sw_id@)),
{
    match &e.signatures.bosch_hw_id {
        None => EntryVerdictOut::Skip,
        Some(h) => {
            let hs = h.as_str();
            let eb = hs.as_bytes();
            let lb = live_hw_id.as_bytes();
            let n = if eb.len() < lb.len() {
                eb.len()
            } else {
                lb.len()
            };
            if n < 8 {
                return EntryVerdictOut::Skip;
            }
            if !hs.is_char_boundary(n) || !live_hw_id.is_char_boundary(n) {
                return EntryVerdictOut::CutsChar;
            }
            let ep = &eb[0..n];
            let lp = &lb[0..n];
            proof {
                assert(ep@ =~= encode_utf8(h@).take(n as int));
                assert(lp@ =~= encode_utf8(live_hw_id@).take(n as int));
            }
            if !eq_ignore_case_bytes(ep, lp) {
                return EntryVerdictOut::Skip;
            }
            match &e.signatures.bosch_sw_id {
                None => EntryVerdictOut::Skip,
                Some(sw) => {
                    if eq_ignore_case_bytes(sw.as_str().as_bytes(), live_sw_id.as_bytes()) {
                        EntryVerdictOut::Skip
                    } else {
                        EntryVerdictOut::Recommend
                    }
                },
            }
        },
    }
}

enum EntryVerdictOut {
    Skip,
    Recommend,
    CutsChar,
}

spec fn verdict_out_matches(o: EntryVerdictOut, v: EntryVerdict) -> bool {
    match o {
        EntryVerdictOut::Skip => v is Skip,
        EntryVerdictOut::Recommend => v is Recommend,
        EntryVerdictOut::CutsChar => v is CutsChar,
    }
}

/// The reason given for a recommendation.
pub open spec fn upgrade_reason(entry_sw: Seq<char>, live_sw: Seq<char>) -> Seq<char> {
    "Local calibration "@ + entry_sw + " supersedes connected calibration "@ + live_sw
}

/// Whether `r` recommends entry `e` for the live IDs.
pub open spec fn recommends_entry(
    r: FirmwareUpgradeRecommendation,
    e: VaultEntryView,
    live_hw: Seq<char>,
    live_sw: Seq<char>,
) -> bool {
    &&& r.target_module@ == "EDC16"@
    &&& r.live_hw_id@ == live_hw
    &&& r.live_sw_id@ == live_sw
    &&& r.recommended_file@ == e
    &&& r.reason@ == upgrade_reason(e.signatures.bosch_sw_id->0, live_sw)
    &&& r.can_stage
}

fn search(entries: &[FirmwareVaultEntry], live_hw_id: &str, live_sw_id: &str) -> (r: Result<
    Option<usize>,
    (),
>)
    ensures
        match upgrade_search(entry_views(entries@), live_hw_id@, live_sw_id@, 0) {
            UpgradeSearch::Found(i) => r == Ok::<Option<usize>, ()>(Some(i as usize)),
            UpgradeSearch::NotFound => r == Ok::<Option<usize>, ()>(None),
            UpgradeSearch::CutsChar => r is Err,
        },
{
    let ghost views = entry_views(entries@);
    let mut i: usize = 0;
    while i < entries.len()
        invariant
            i <= entries@.len(),
            views == entry_views(entries@),
            upgrade_search(views, live_hw_id@, live_sw_id@, 0) == upgrade_search(
                views,
                live_hw_id@,
                live_sw_id@,
                i as nat,
            ),
        decreases entries@.len() - i,
    {
        proof {
            assert(views[i as int] == entries@[i as int]@);
        }
        match entry_verdict_exec(&entries[i], live_hw_id, live_sw_id) {
            EntryVerdictOut::Recommend => {
                return Ok(Some(i));
            },
            EntryVerdictOut::CutsChar => {
                return Err(());
            },
            EntryVerdictOut::Skip => {},
        }
        i = i + 1;
    }
    Ok(None)
}

fn make_recommendation(e: &FirmwareVaultEntry, live_hw_id: &str, live_sw_id: &str) -> (r:
    FirmwareUpgradeRecommendation)
    requires
        entry_verdict(e@, live_hw_id@, live_sw_id@) is Recommend,
    ensures
        recommends_entry(r, e@, live_hw_id@, live_sw_id@),
{
    let mut target_module = String::new();
    push_str(&mut target_module, "EDC16");
    let mut live_hw = String::new();
    push_str(&mut live_hw, live_hw_id);
    let mut live_sw = String::new();
    push_str(&mut live_sw, live_sw_id);
    let mut reason = String::new();
    push_str(&mut reason, "Local calibration ");
    match &e.signatures.bosch_sw_id {
        Some(sw) => push_str(&mut reason, sw.as_str()),
        None => {},
    }
    push_str(&mut reason, " supersedes connected calibration ");
    push_str(&mut reason, live_sw_id);
    FirmwareUpgradeRecommendation {
        target_module,
        live_hw_id: live_hw,
        live_sw_id: live_sw,
        recommended_file: clone_entry(e),
        reason,
        can_stage: true,
    }
}

impl FirmwareVault {
    /// The vault entry for a file, when its extension (in any case) is one the vault
    /// holds: `bin`, `rom`, `cff`, `smr-f` or `fls`; with the signatures of its contents.
    pub fn entry_for_file(file_path: &str, filename: &str, extension: &str, data: &[u8]) -> (r:
        Option<FirmwareVaultEntry>)
        ensures
            match vault_format(lower_of(extension@)) {
                None => r is None,
                Some(f) => r matches Some(e) && e.file_path@ == file_path@ && e.filename@
                    == filename@ && e.file_size_bytes == data@.len() && e.format@ == f
                    && e.signatures@ == signatures_of(data@),
            },
    {
        let chars = str_chars(extension);
        let lower = to_lower(chars.as_slice());
        let l = lower.as_slice();
        let format: &str = if chars_eq(l, "bin") || chars_eq(l, "rom") {
            "Raw Flash Binary (.bin)"
        } else if chars_eq(l, "cff") {
            "Caesar Flash Container (.cff)"
        } else if chars_eq(l, "smr-f") {
            "Modular Flash Container (.smr-f)"
        } else if chars_eq(l, "fls") {
            "Binary Calibration (.fls)"
        } else {
            return None;
        };
        let mut fp = String::new();
        push_str(&mut fp, file_path);
        let mut fname = String::new();
        push_str(&mut fname, filename);
        let mut fmt = String::new();
        push_str(&mut fmt, format);
        Some(
            FirmwareVaultEntry {
                file_path: fp,
                filename: fname,
                file_size_bytes: data.len(),
                format: fmt,
                signatures: FirmwareSignatures::extract(data),
            },
        )
    }

    /// The first vault entry whose hardware ID matches the connected ECU's on their
    /// common length (at least 8 bytes, ASCII case aside) and whose software ID differs
    /// from the connected one, as a recommendation; `None` when there is none.
    pub fn find_upgrade_recommendation(
        entries: &[FirmwareVaultEntry],
        live_hw_id: &str,
        live_sw_id: &str,
    ) -> (r: Option<FirmwareUpgradeRecommendation>)
        requires
            !(upgrade_search(entry_views(entries@), live_hw_id@, live_sw_id@, 0) is CutsChar),
        ensures
            match upgrade_search(entry_views(entries@), live_hw_id@, live_sw_id@, 0) {
                UpgradeSearch::Found(i) => r matches Some(rec) && recommends_entry(
                    rec,
                    entries@[i as int]@,
                    live_hw_id@,
                    live_sw_id@,
                ),
                _ => r is None,
            },
    {
        match search(entries, live_hw_id, live_sw_id) {
            Ok(Some(i)) => {
                proof {
                    lemma_search_found(entry_views(entries@), live_hw_id@, live_sw_id@, 0);
                }
                Some(make_recommendation(&entries[i], live_hw_id, live_sw_id))
            },
            _ => None,
        }
    }

    /// Like [`FirmwareVault::find_upgrade_recommendation`], except where the search would
    /// cut a hardware ID inside a character: then `Err(())`.
    pub fn try_find_upgrade_recommendation(
        entries: &[FirmwareVaultEntry],
        live_hw_id: &str,
        live_sw_id: &str,
    ) -> (r: Result<Option<FirmwareUpgradeRecommendation>, ()>)
        ensures
            match upgrade_search(entry_views(entries@), live_hw_id@, live_sw_id@, 0) {
                UpgradeSearch::Found(i) => r matches Ok(Some(rec)) && recommends_entry(
                    rec,
                    entries@[i as int]@,
                    live_hw_id@,
                    live_sw_id@,
                ),
                UpgradeSearch::NotFound => r matches Ok(None),
                UpgradeSearch::CutsChar => r is Err,
            },
    {
        match search(entries, live_hw_id, live_sw_id) {
            Err(()) => Err(()),
            Ok(_) => Ok(Self::find_upgrade_recommendation(entries, live_hw_id, live_sw_id)),
        }
    }
}

proof fn lemma_search_found(
    entries: Seq<VaultEntryView>,
    live_hw: Seq<char>,
    live_sw: Seq<char>,
    from: nat,
)
    ensures
        upgrade_search(entries, live_hw, live_sw, from) matches UpgradeSearch::Found(i) ==> from
            <= i < entries.len() && entry_verdict(entries[i as int], live_hw, live_sw) is Recommend,
    decreases entries.len() - from,
{
    if from < entries.len() {
        lemma_search_found(entries, live_hw, live_sw, from + 1);
    }
}

} // verus!
