//! Diagnostic trouble codes as read from an ECU (ISO 15031-6 two-byte encoding).

use crate::i18n::{
    dtc_description, lookup_cuts_char, lookup_dtc_description, try_lookup_dtc_description,
    DtcDatabase, Language,
};
use crate::text::{all_ascii, hex_char, push_char, push_str};
use vstd::prelude::*;

verus! {

/// A diagnostic trouble code with its status and description.
#[derive(Debug, Clone, PartialEq, Eq)]
pub struct Dtc {
    pub code: String,
    pub raw_bytes: [u8; 3],
    pub status_byte: u8,
    pub module: String,
    pub description: String,
    pub confirmed: bool,
    pub pending: bool,
    pub warning_lamp_requested: bool,
}

/// The system letter of the two high bits of the first byte.
pub open spec fn system_letter(b0: u8) -> char {
    let s = b0 / 64;
    if s == 0 {
        'P'
    } else if s == 1 {
        'C'
    } else if s == 2 {
        'B'
    } else {
        'U'
    }
}

/// The five-character code of two DTC bytes, e.g. `P0100`.
pub open spec fn dtc_code(b0: u8, b1: u8) -> Seq<char> {
    seq![
        system_letter(b0),
        hex_char((b0 / 16 % 4) as nat),
        hex_char((b0 % 16) as nat),
        hex_char((b1 / 16) as nat),
        hex_char((b1 % 16) as nat),
    ]
}

fn hex_digit(d: u8) -> (c: char)
    requires
        d < 16,
    ensures
        c == hex_char(d as nat),
{
    if d < 10 {
        ((d + 48) as u8) as char
    } else {
        ((d + 55) as u8) as char
    }
}

impl Dtc {
    /// Decodes an ISO 15031-6 DTC with an English description.
    pub fn parse_iso15031(b0: u8, b1: u8, status_byte: u8, module: &str, db: &DtcDatabase) -> (r:
        Self)
        ensures
            r.code@ == dtc_code(b0, b1),
            r.raw_bytes@ == seq![b0, b1, 0u8],
            r.status_byte == status_byte,
            r.module@ == module@,
            r.description@ == dtc_description(dtc_code(b0, b1), Language::En, *db),
            r.confirmed == (status_byte & 0x08 != 0),
            r.pending == (status_byte & 0x04 != 0),
            r.warning_lamp_requested == (status_byte & 0x80 != 0),
    {
        Self::parse_iso15031_localized(b0, b1, status_byte, module, Language::En, db)
    }

    /// Decodes an ISO 15031-6 DTC: the system letter from the two high bits of the
    /// first byte, then four hexadecimal digits; confirmed, pending and warning-lamp
    /// flags from bits 3, 2 and 7 of the status byte; the description in `lang`.
    pub fn parse_iso15031_localized(
        b0: u8,
        b1: u8,
        status_byte: u8,
        module: &str,
        lang: Language,
        db: &DtcDatabase,
    ) -> (r: Self)
        ensures
            r.code@ == dtc_code(b0, b1),
            r.raw_bytes@ == seq![b0, b1, 0u8],
            r.status_byte == status_byte,
            r.module@ == module@,
            r.description@ == dtc_description(dtc_code(b0, b1), lang, *db),
            r.confirmed == (status_byte & 0x08 != 0),
            r.pending == (status_byte & 0x04 != 0),
            r.warning_lamp_requested == (status_byte & 0x80 != 0),
    {
        let prefix = match b0 / 64 {
            0 => 'P',
            1 => 'C',
            2 => 'B',
            _ => 'U',
        };
        let mut code = String::new();
        push_char(&mut code, prefix);
        push_char(&mut code, hex_digit(b0 / 16 % 4));
        push_char(&mut code, hex_digit(b0 % 16));
        push_char(&mut code, hex_digit(b1 / 16));
        push_char(&mut code, hex_digit(b1 % 16));
        proof {
            assert(code@ =~= dtc_code(b0, b1));
            assert(all_ascii(code@));
        }
        let description = match try_lookup_dtc_description(code.as_str(), lang, db) {
            Some(d) => d,
            None => {
                proof {
                    assert(false);
                }
                String::new()
            },
        };
        let mut m = String::new();
        push_str(&mut m, module);
        Dtc {
            code,
            raw_bytes: [b0, b1, 0],
            status_byte,
            module: m,
            description,
            confirmed: (status_byte & 0x08) != 0,
            pending: (status_byte & 0x04) != 0,
            warning_lamp_requested: (status_byte & 0x80) != 0,
        }
    }

    /// Replaces the description with the one in `lang`.
    pub fn localize(&mut self, lang: Language, db: &DtcDatabase)
        requires
            !lookup_cuts_char(old(self).code@, lang, *db),
        ensures
            final(self).description@ == dtc_description(old(self).code@, lang, *db),
            final(self).code == old(self).code,
            final(self).raw_bytes == old(self).raw_bytes,
            final(self).status_byte == old(self).status_byte,
            final(self).module == old(self).module,
            final(self).confirmed == old(self).confirmed,
            final(self).pending == old(self).pending,
            final(self).warning_lamp_requested == old(self).warning_lamp_requested,
    {
        self.description = lookup_dtc_description(self.code.as_str(), lang, db);
    }

    /// Like [`Dtc::localize`], except for a code whose lookup would cut a character:
    /// then the DTC is left as it was and `false` is returned.
    pub fn try_localize(&mut self, lang: Language, db: &DtcDatabase) -> (r: bool)
        ensures
            r == !lookup_cuts_char(old(self).code@, lang, *db),
            r ==> final(self).description@ == dtc_description(old(self).code@, lang, *db),
            !r ==> final(self).description == old(self).description,
            final(self).code == old(self).code,
            final(self).raw_bytes == old(self).raw_bytes,
            final(self).status_byte == old(self).status_byte,
            final(self).module == old(self).module,
            final(self).confirmed == old(self).confirmed,
            final(self).pending == old(self).pending,
            final(self).warning_lamp_requested == old(self).warning_lamp_requested,
    {
        match try_lookup_dtc_description(self.code.as_str(), lang, db) {
            Some(d) => {
                self.localize(lang, db);
                true
            },
            None => false,
        }
    }
}

/// The code's letter is fixed by the two top bits of the first byte: 00 gives `P`
/// (powertrain), 01 `C` (chassis), 10 `B` (body), 11 `U` (network).
pub proof fn lemma_dtc_system_letter(b0: u8, b1: u8)
    ensures
        (b0 >> 6u8) == 0u8 ==> dtc_code(b0, b1)[0] == 'P',
        (b0 >> 6u8) == 1u8 ==> dtc_code(b0, b1)[0] == 'C',
        (b0 >> 6u8) == 2u8 ==> dtc_code(b0, b1)[0] == 'B',
        (b0 >> 6u8) == 3u8 ==> dtc_code(b0, b1)[0] == 'U',
{
    assert((b0 >> 6u8) as nat == (b0 / 64) as nat) by (bit_vector);
}

proof fn lemma_hex_char_injective(a: nat, b: nat)
    requires
        a < 16,
        b < 16,
        hex_char(a) == hex_char(b),
    ensures
        a == b,
{
    let ca = hex_char(a);
    let cb = hex_char(b);
    assert((ca as u32) == (if a < 10 { a + 48 } else { a + 55 }));
    assert((cb as u32) == (if b < 10 { b + 48 } else { b + 55 }));
}

/// Distinct DTC byte pairs have distinct codes: the code gives back both bytes.
pub proof fn lemma_dtc_code_injective(a0: u8, a1: u8, c0: u8, c1: u8)
    requires
        dtc_code(a0, a1) == dtc_code(c0, c1),
    ensures
        a0 == c0,
        a1 == c1,
{
    let x = dtc_code(a0, a1);
    let y = dtc_code(c0, c1);
    assert(x[0] == y[0] && x[1] == y[1] && x[2] == y[2] && x[3] == y[3] && x[4] == y[4]);
    assert(a0 / 64 == c0 / 64);
    lemma_hex_char_injective((a0 / 16 % 4) as nat, (c0 / 16 % 4) as nat);
    lemma_hex_char_injective((a0 % 16) as nat, (c0 % 16) as nat);
    lemma_hex_char_injective((a1 / 16) as nat, (c1 / 16) as nat);
    lemma_hex_char_injective((a1 % 16) as nat, (c1 % 16) as nat);
}

} // verus!
