//! Languages, localized DTC descriptions and routine names.

use crate::text::{
    all_ascii, chars_eq, is_unicode_whitespace, lower_of, push_str, str_chars, to_lower, to_upper, trim, trim_ws, upper_of,
};
use vstd::prelude::*;
use vstd::string::StringSliceAdditionalSpecFns;
use vstd::utf8::{decode_utf8, encode_utf8, is_ascii_chars, is_char_boundary};

verus! {

/// Languages of the user interface and descriptions.
#[derive(Debug, Clone, Copy, PartialEq, Eq, Hash)]
pub enum Language {
    En,
    De,
    Sv,
}

impl std::str::FromStr for Language {
    type Err = std::convert::Infallible;

    /// Reads a language name as `Language::from_name` does; never fails.
    fn from_str(s: &str) -> (r: Result<Self, Self::Err>)
        ensures
            r matches Ok(l) && l == language_named(lower_of(trim_ws(s@))),
    {
        Ok(Language::from_name(s))
    }
}

/// ISO 639-1 code of each language.
pub open spec fn language_code(l: Language) -> Seq<char> {
    match l {
        Language::En => "en"@,
        Language::De => "de"@,
        Language::Sv => "sv"@,
    }
}

/// Native display name of each language.
pub open spec fn language_name(l: Language) -> Seq<char> {
    match l {
        Language::En => "English"@,
        Language::De => "Deutsch"@,
        Language::Sv => "Svenska"@,
    }
}

/// The language a (trimmed, lower-cased) name selects; English for anything unknown.
pub open spec fn language_named(clean: Seq<char>) -> Language {
    if clean == "de"@ || clean == "de-de"@ || clean == "de-at"@ || clean == "de-ch"@ || clean
        == "german"@ || clean == "deutsch"@ {
        Language::De
    } else if clean == "sv"@ || clean == "sv-se"@ || clean == "swedish"@ || clean == "svenska"@ {
        Language::Sv
    } else {
        Language::En
    }
}

impl Language {
    /// Two-letter ISO 639-1 code.
    pub fn code(&self) -> (r: &'static str)
        ensures
            r@ == language_code(*self),
    {
        match self {
            Language::En => "en",
            Language::De => "de",
            Language::Sv => "sv",
        }
    }

    /// Native display name.
    pub fn display_name(&self) -> (r: &'static str)
        ensures
            r@ == language_name(*self),
    {
        match self {
            Language::En => "English",
            Language::De => "Deutsch",
            Language::Sv => "Svenska",
        }
    }

    /// The language named by `s` (trimmed, any case): German and Swedish by code,
    /// region code or name, English otherwise.
    pub fn from_name(s: &str) -> (r: Language)
        ensures
            r == language_named(lower_of(trim_ws(s@))),
    {
        let chars = str_chars(s);
        let t = trim(chars.as_slice());
        let clean = to_lower(t.as_slice());
        let c = clean.as_slice();
        if chars_eq(c, "de") || chars_eq(c, "de-de") || chars_eq(c, "de-at") || chars_eq(c, "de-ch")
            || chars_eq(c, "german") || chars_eq(c, "deutsch") {
            Language::De
        } else if chars_eq(c, "sv") || chars_eq(c, "sv-se") || chars_eq(c, "swedish") || chars_eq(
            c,
            "svenska",
        ) {
            Language::Sv
        } else {
            Language::En
        }
    }
}

impl Default for Language {
    fn default() -> (r: Self)
        ensures
            r == Language::En,
    {
        Language::En
    }
}

/// Curated description of `code`, if it has one.
pub open spec fn curated_en(code: Seq<char>) -> Option<Seq<char>> {
    if code == "P0100"@ {
        Some("Mass Air Flow (MAF) Sensor Circuit Malfunction"@)
    } else if code == "P0105"@ {
        Some("Manifold Absolute Pressure (MAP) Sensor Circuit Malfunction"@)
    } else if code == "P0115"@ {
        Some("Engine Coolant Temperature Circuit Malfunction"@)
    } else if code == "P0234"@ {
        Some("Turbocharger/Supercharger Overboost Condition"@)
    } else if code == "P0235"@ {
        Some("Turbocharger Boost Sensor A Circuit Malfunction"@)
    } else if code == "P0300"@ {
        Some("Random/Multiple Cylinder Misfire Detected"@)
    } else if code == "P0700"@ {
        Some("Transmission Control System (MIL Request)"@)
    } else if code == "P0715"@ {
        Some("Input/Turbine Speed Sensor Circuit Malfunction"@)
    } else if code == "P0730"@ {
        Some("Incorrect Gear Ratio (Transmission Slip)"@)
    } else if code == "P0740"@ {
        Some("Torque Converter Clutch Circuit Malfunction"@)
    } else if code == "C1500"@ {
        Some("Air Suspension Central Reservoir Plausibility Error"@)
    } else {
        None
    }
}

/// Curated description of `code`, if it has one.
pub open spec fn curated_de(code: Seq<char>) -> Option<Seq<char>> {
    if code == "P0100"@ {
        Some("Luftmassenmesser (LMM) Schaltkreis Fehlfunktion"@)
    } else if code == "P0105"@ {
        Some("Saugrohrdrucksensor (MAP) Schaltkreis Fehlfunktion"@)
    } else if code == "P0115"@ {
        Some("Kühlmitteltemperatursensor Schaltkreis Fehlfunktion"@)
    } else if code == "P0234"@ {
        Some("Ladedruck-Regelung: Regelgrenze überschritten (Überdruck)"@)
    } else if code == "P0235"@ {
        Some("Ladedrucksensor A Schaltkreis Fehlfunktion"@)
    } else if code == "P0300"@ {
        Some("Verbrennungsaussetzer auf mehreren Zylindern erkannt"@)
    } else if code == "P0700"@ {
        Some("Getriebesteuerungssystem (Fehlerleuchten-Anforderung)"@)
    } else if code == "P0715"@ {
        Some("Eingangsdrehzahl-/Turbinendrehzahlsensor Schaltkreis Fehlfunktion"@)
    } else if code == "P0730"@ {
        Some("Unplausible Gangübersetzung (Getriebeschlupf erkannt)"@)
    } else if code == "P0740"@ {
        Some("Wandlerüberbrückungskupplung (WÜK) Fehlfunktion"@)
    } else if code == "C1500"@ {
        Some("Luftfederung Zentralspeicher Plausibilitätsfehler"@)
    } else {
        None
    }
}

/// Curated description of `code`, if it has one.
pub open spec fn curated_sv(code: Seq<char>) -> Option<Seq<char>> {
    if code == "P0100"@ {
        Some("Luftmassemätare (LMM) Strömkretsfel"@)
    } else if code == "P0105"@ {
        Some("Insugstrycksgivare (MAP) Strömkretsfel"@)
    } else if code == "P0115"@ {
        Some("Motorkylvätsketemperaturgivare Strömkretsfel"@)
    } else if code == "P0234"@ {
        Some("Laddtrycksreglering: Reglergräns överskriden (Övertryck)"@)
    } else if code == "P0235"@ {
        Some("Laddtrycksgivare A Strömkretsfel"@)
    } else if code == "P0300"@ {
        Some("Slumpmässiga/flera cylinderfeltändningar upptäckta"@)
    } else if code == "P0700"@ {
        Some("Växellådsstyrsystem (MIL-begäran)"@)
    } else if code == "P0715"@ {
        Some("Ingående varvtalssensor/turbinvarvtalssensor Strömkretsfel"@)
    } else if code == "P0730"@ {
        Some("Felaktigt utväxlingsförhållande (Växellådsslir)"@)
    } else if code == "P0740"@ {
        Some("Momentomvandlarkoppling (WÜK) Strömkretsfel"@)
    } else if code == "U0100"@ {
        Some("Förlorad kommunikation med motorstyrenhet (ECM)"@)
    } else if code == "U0101"@ {
        Some("Förlorad kommunikation med växellådsstyrenhet (TCM)"@)
    } else if code == "C1500"@ {
        Some("Luftfjädring centralreservoar rimlighetsfel"@)
    } else {
        None
    }
}

/// Curated description of a normalized code in a language.
pub open spec fn curated_description(lang: Language, code: Seq<char>) -> Option<Seq<char>> {
    match lang {
        Language::En => curated_en(code),
        Language::De => curated_de(code),
        Language::Sv => curated_sv(code),
    }
}

fn curated_en_exec(code: &[char]) -> (r: Option<&'static str>)
    ensures
        match curated_en(code@) {
            Some(t) => r matches Some(s) && s@ == t,
            None => r is None,
        },
{
    if chars_eq(code, "P0100") {
        return Some("Mass Air Flow (MAF) Sensor Circuit Malfunction");
    }
    if chars_eq(code, "P0105") {
        return Some("Manifold Absolute Pressure (MAP) Sensor Circuit Malfunction");
    }
    if chars_eq(code, "P0115") {
        return Some("Engine Coolant Temperature Circuit Malfunction");
    }
    if chars_eq(code, "P0234") {
        return Some("Turbocharger/Supercharger Overboost Condition");
    }
    if chars_eq(code, "P0235") {
        return Some("Turbocharger Boost Sensor A Circuit Malfunction");
    }
    if chars_eq(code, "P0300") {
        return Some("Random/Multiple Cylinder Misfire Detected");
    }
    if chars_eq(code, "P0700") {
        return Some("Transmission Control System (MIL Request)");
    }
    if chars_eq(code, "P0715") {
        return Some("Input/Turbine Speed Sensor Circuit Malfunction");
    }
    if chars_eq(code, "P0730") {
        return Some("Incorrect Gear Ratio (Transmission Slip)");
    }
    if chars_eq(code, "P0740") {
        return Some("Torque Converter Clutch Circuit Malfunction");
    }
    if chars_eq(code, "C1500") {
        return Some("Air Suspension Central Reservoir Plausibility Error");
    }
    None
}

fn curated_de_exec(code: &[char]) -> (r: Option<&'static str>)
    ensures
        match curated_de(code@) {
            Some(t) => r matches Some(s) && s@ == t,
            None => r is None,
        },
{
    if chars_eq(code, "P0100") {
        return Some("Luftmassenmesser (LMM) Schaltkreis Fehlfunktion");
    }
    if chars_eq(code, "P0105") {
        return Some("Saugrohrdrucksensor (MAP) Schaltkreis Fehlfunktion");
    }
    if chars_eq(code, "P0115") {
        return Some("Kühlmitteltemperatursensor Schaltkreis Fehlfunktion");
    }
    if chars_eq(code, "P0234") {
        return Some("Ladedruck-Regelung: Regelgrenze überschritten (Überdruck)");
    }
    if chars_eq(code, "P0235") {
        return Some("Ladedrucksensor A Schaltkreis Fehlfunktion");
    }
    if chars_eq(code, "P0300") {
        return Some("Verbrennungsaussetzer auf mehreren Zylindern erkannt");
    }
    if chars_eq(code, "P0700") {
        return Some("Getriebesteuerungssystem (Fehlerleuchten-Anforderung)");
    }
    if chars_eq(code, "P0715") {
        return Some("Eingangsdrehzahl-/Turbinendrehzahlsensor Schaltkreis Fehlfunktion");
    }
    if chars_eq(code, "P0730") {
        return Some("Unplausible Gangübersetzung (Getriebeschlupf erkannt)");
    }
    if chars_eq(code, "P0740") {
        return Some("Wandlerüberbrückungskupplung (WÜK) Fehlfunktion");
    }
    if chars_eq(code, "C1500") {
        return Some("Luftfederung Zentralspeicher Plausibilitätsfehler");
    }
    None
}

fn curated_sv_exec(code: &[char]) -> (r: Option<&'static str>)
    ensures
        match curated_sv(code@) {
            Some(t) => r matches Some(s) && s@ == t,
            None => r is None,
        },
{
    if chars_eq(code, "P0100") {
        return Some("Luftmassemätare (LMM) Strömkretsfel");
    }
    if chars_eq(code, "P0105") {
        return Some("Insugstrycksgivare (MAP) Strömkretsfel");
    }
    if chars_eq(code, "P0115") {
        return Some("Motorkylvätsketemperaturgivare Strömkretsfel");
    }
    if chars_eq(code, "P0234") {
        return Some("Laddtrycksreglering: Reglergräns överskriden (Övertryck)");
    }
    if chars_eq(code, "P0235") {
        return Some("Laddtrycksgivare A Strömkretsfel");
    }
    if chars_eq(code, "P0300") {
        return Some("Slumpmässiga/flera cylinderfeltändningar upptäckta");
    }
    if chars_eq(code, "P0700") {
        return Some("Växellådsstyrsystem (MIL-begäran)");
    }
    if chars_eq(code, "P0715") {
        return Some("Ingående varvtalssensor/turbinvarvtalssensor Strömkretsfel");
    }
    if chars_eq(code, "P0730") {
        return Some("Felaktigt utväxlingsförhållande (Växellådsslir)");
    }
    if chars_eq(code, "P0740") {
        return Some("Momentomvandlarkoppling (WÜK) Strömkretsfel");
    }
    if chars_eq(code, "U0100") {
        return Some("Förlorad kommunikation med motorstyrenhet (ECM)");
    }
    if chars_eq(code, "U0101") {
        return Some("Förlorad kommunikation med växellådsstyrenhet (TCM)");
    }
    if chars_eq(code, "C1500") {
        return Some("Luftfjädring centralreservoar rimlighetsfel");
    }
    None
}

/// Routine name of `id` in one language.
pub open spec fn routine_en(id: u16) -> Seq<char> {
    if id == 0xFF01 {
        "Fuel Pump Prime & Rail Bleed"@
    } else if id == 0x0201 {
        "Reset NMK Injector Zero-Quantity Adaptations"@
    } else if id == 0x0202 {
        "Trigger DPF Service Regeneration"@
    } else if id == 0x0203 {
        "Throttle Valve / EGR Lower Stop Relearn"@
    } else if id == 0x0205 {
        "SBC Brake Hydraulic Bleed Routine"@
    } else if id == 0x0210 {
        "Pneumatic Compressor Relay Inhibit (Burnout Safe Mode)"@
    } else if id == 0x0211 {
        "Air Suspension Workshop / Transport Mode (Leveling Inhibit)"@
    } else if id == 0x0212 {
        "Air Suspension Normal Operation Restore"@
    } else if id == 0xFF00 {
        "Erase Flash Memory Routine"@
    } else {
        "Diagnostic Routine Control"@
    }
}

/// Routine name of `id` in one language.
pub open spec fn routine_de(id: u16) -> Seq<char> {
    if id == 0xFF01 {
        "Kraftstoffpumpe vorfördern & Entlüftung"@
    } else if id == 0x0201 {
        "Nullmengenkalibrierung (NMK) Injektoranpassung zurücksetzen"@
    } else if id == 0x0202 {
        "DPF-Partikelfilter Service-Regeneration starten"@
    } else if id == 0x0203 {
        "Drosselklappe / AGR-Ventil Anschlag einlernen"@
    } else if id == 0x0205 {
        "SBC Bremsen-Hydraulik Entlüftungsroutine"@
    } else if id == 0x0210 {
        "Kompressor-Relais Abschaltung (Überhitzungsschutz)"@
    } else if id == 0x0211 {
        "Luftfederung Werkstatt- / Transportmodus (Regelung gesperrt)"@
    } else if id == 0x0212 {
        "Luftfederung Normalbetrieb wiederherstellen"@
    } else if id == 0xFF00 {
        "Flash-Speicher Löschroutine"@
    } else {
        "Diagnose-Routine-Steuerung"@
    }
}

/// Routine name of `id` in one language.
pub open spec fn routine_sv(id: u16) -> Seq<char> {
    if id == 0xFF01 {
        "Bränslepump grundning och urluftning"@
    } else if id == 0x0201 {
        "Nollmängdskalibrering (NMK) återställ spridaranpassning"@
    } else if id == 0x0202 {
        "Starta DPF-partikelfilterregenerering"@
    } else if id == 0x0203 {
        "Inlärning av spjällhus / EGR-ändläge"@
    } else if id == 0x0205 {
        "SBC Bromshydraulik avluftningsrutin"@
    } else if id == 0x0210 {
        "Kompressorrelä avstängning (Överhettningsskydd)"@
    } else if id == 0x0211 {
        "Luftfjädring verkstads- / transportläge (Nivåreglering spärrad)"@
    } else if id == 0x0212 {
        "Luftfjädring normal drift återställd"@
    } else if id == 0xFF00 {
        "Radera flashminne rutin"@
    } else {
        "Diagnostisk rutinstyrning"@
    }
}

/// Localized name of a UDS service 0x31 routine.
pub open spec fn routine_name(id: u16, lang: Language) -> Seq<char> {
    match lang {
        Language::En => routine_en(id),
        Language::De => routine_de(id),
        Language::Sv => routine_sv(id),
    }
}

/// Localized name of a UDS service 0x31 RoutineControl routine.
pub fn lookup_routine_name(routine_id: u16, lang: Language) -> (r: &'static str)
    ensures
        r@ == routine_name(routine_id, lang),
{
    match lang {
        Language::En => {
            match routine_id {
                0xFF01 => "Fuel Pump Prime & Rail Bleed",
                0x0201 => "Reset NMK Injector Zero-Quantity Adaptations",
                0x0202 => "Trigger DPF Service Regeneration",
                0x0203 => "Throttle Valve / EGR Lower Stop Relearn",
                0x0205 => "SBC Brake Hydraulic Bleed Routine",
                0x0210 => "Pneumatic Compressor Relay Inhibit (Burnout Safe Mode)",
                0x0211 => "Air Suspension Workshop / Transport Mode (Leveling Inhibit)",
                0x0212 => "Air Suspension Normal Operation Restore",
                0xFF00 => "Erase Flash Memory Routine",
                _ => "Diagnostic Routine Control",
            }
        },
        Language::De => {
            match routine_id {
                0xFF01 => "Kraftstoffpumpe vorfördern & Entlüftung",
                0x0201 => "Nullmengenkalibrierung (NMK) Injektoranpassung zurücksetzen",
                0x0202 => "DPF-Partikelfilter Service-Regeneration starten",
                0x0203 => "Drosselklappe / AGR-Ventil Anschlag einlernen",
                0x0205 => "SBC Bremsen-Hydraulik Entlüftungsroutine",
                0x0210 => "Kompressor-Relais Abschaltung (Überhitzungsschutz)",
                0x0211 => "Luftfederung Werkstatt- / Transportmodus (Regelung gesperrt)",
                0x0212 => "Luftfederung Normalbetrieb wiederherstellen",
                0xFF00 => "Flash-Speicher Löschroutine",
                _ => "Diagnose-Routine-Steuerung",
            }
        },
        Language::Sv => {
            match routine_id {
                0xFF01 => "Bränslepump grundning och urluftning",
                0x0201 => "Nollmängdskalibrering (NMK) återställ spridaranpassning",
                0x0202 => "Starta DPF-partikelfilterregenerering",
                0x0203 => "Inlärning av spjällhus / EGR-ändläge",
                0x0205 => "SBC Bromshydraulik avluftningsrutin",
                0x0210 => "Kompressorrelä avstängning (Överhettningsskydd)",
                0x0211 => "Luftfjädring verkstads- / transportläge (Nivåreglering spärrad)",
                0x0212 => "Luftfjädring normal drift återställd",
                0xFF00 => "Radera flashminne rutin",
                _ => "Diagnostisk rutinstyrning",
            }
        },
    }
}

/// One entry of the DTC dictionary: raw hex value and translations.
#[derive(Debug, Clone, PartialEq, Eq)]
pub struct DtcRecord {
    pub hex: Option<String>,
    pub en: Option<String>,
    pub de: Option<String>,
    pub sv: Option<String>,
}

/// The text of an optional string.
pub open spec fn opt_text(o: Option<String>) -> Option<Seq<char>> {
    match o {
        Some(s) => Some(s@),
        None => None,
    }
}

/// The value of a [`DtcRecord`].
pub struct DtcRecordView {
    pub hex: Option<Seq<char>>,
    pub en: Option<Seq<char>>,
    pub de: Option<Seq<char>>,
    pub sv: Option<Seq<char>>,
}

impl View for DtcRecord {
    type V = DtcRecordView;

    open spec fn view(&self) -> DtcRecordView {
        DtcRecordView {
            hex: opt_text(self.hex),
            en: opt_text(self.en),
            de: opt_text(self.de),
            sv: opt_text(self.sv),
        }
    }
}

impl Default for DtcRecord {
    fn default() -> (r: Self)
        ensures
            r.hex is None && r.en is None && r.de is None && r.sv is None,
    {
        DtcRecord { hex: None, en: None, de: None, sv: None }
    }
}

/// The DTC dictionary: at most one record per code.
pub struct DtcDatabase {
    entries: Vec<(String, DtcRecord)>,
}

impl DtcDatabase {
    #[verifier::type_invariant]
    spec fn codes_distinct(&self) -> bool {
        forall|i: int, j: int|
            0 <= i < j < self.entries@.len() ==> self.entries@[i].0@ != self.entries@[j].0@
    }

    /// Whether the dictionary has a record for `code`.
    pub closed spec fn has(&self, code: Seq<char>) -> bool {
        exists|i: int| 0 <= i < self.entries@.len() && self.entries@[i].0@ == code
    }

    /// The record for `code`, when there is one.
    pub closed spec fn record(&self, code: Seq<char>) -> DtcRecordView {
        self.entries@[choose|i: int| 0 <= i < self.entries@.len() && self.entries@[i].0@ == code].1@
    }

    /// Number of codes in the dictionary.
    pub closed spec fn size(&self) -> nat {
        self.entries@.len()
    }

    /// An empty dictionary.
    pub fn new() -> (r: Self)
        ensures
            r.size() == 0,
            forall|k: Seq<char>| !r.has(k),
    {
        DtcDatabase { entries: Vec::new() }
    }

    fn position(&self, code: &[char]) -> (r: Option<usize>)
        ensures
            match r {
                Some(i) => i < self.entries@.len() && self.entries@[i as int].0@ == code@,
                None => !self.has(code@),
            },
    {
        let mut i: usize = 0;
        while i < self.entries.len()
            invariant
                i <= self.entries@.len(),
                forall|k: int| 0 <= k < i ==> self.entries@[k].0@ != code@,
            decreases self.entries@.len() - i,
        {
            let key = str_chars(self.entries[i].0.as_str());
            if chars_eq_vec(key.as_slice(), code) {
                return Some(i);
            }
            i = i + 1;
        }
        None
    }

    /// Adds or replaces the record for `code`.
    pub fn insert(&mut self, code: String, record: DtcRecord)
        ensures
            forall|k: Seq<char>| final(self).has(k) <==> (old(self).has(k) || k == code@),
            final(self).record(code@) == record@,
            forall|k: Seq<char>|
                k != code@ && old(self).has(k) ==> final(self).record(k) == old(self).record(k),
            final(self).size() == old(self).size() + if old(self).has(code@) {
                0nat
            } else {
                1nat
            },
    {
        proof {
            use_type_invariant(&*self);
        }
        let key = str_chars(code.as_str());
        let pos = self.position(key.as_slice());
        let mut entries: Vec<(String, DtcRecord)> = Vec::new();
        std::mem::swap(&mut entries, &mut self.entries);
        let ghost old_entries = entries@;
        match pos {
            Some(i) => {
                entries.set(i, (code, record));
                proof {
                    assert forall|a: int, b: int| 0 <= a < b < entries@.len() implies entries@[a].0@
                        != entries@[b].0@ by {
                        if a != i && b != i {
                            assert(old_entries[a].0@ != old_entries[b].0@);
                        } else if a == i {
                            assert(old_entries[a].0@ != old_entries[b].0@);
                        } else {
                            assert(old_entries[a].0@ != old_entries[b].0@);
                        }
                    }
                }
            },
            None => {
                entries.push((code, record));
            },
        }
        self.entries = entries;
        proof {
            let e = self.entries@;
            assert forall|k: Seq<char>| self.has(k) <==> (old(self).has(k) || k == code@) by {
                if self.has(k) {
                    let j = choose|j: int| 0 <= j < e.len() && e[j].0@ == k;
                    if k != code@ {
                        assert(old_entries[j].0@ == k);
                    }
                }
                if old(self).has(k) {
                    let j = choose|j: int| 0 <= j < old_entries.len() && old_entries[j].0@ == k;
                    if k != code@ {
                        assert(e[j].0@ == k);
                    }
                }
                if k == code@ {
                    match pos {
                        Some(i) => assert(e[i as int].0@ == k),
                        None => assert(e[old_entries.len() as int].0@ == k),
                    }
                }
            }
            let ci = match pos {
                Some(i) => i as int,
                None => old_entries.len() as int,
            };
            assert(e[ci].0@ == code@);
            let cj = choose|j: int| 0 <= j < e.len() && e[j].0@ == code@;
            assert(cj == ci) by {
                if cj != ci {
                    if cj < ci {
                        assert(e[cj].0@ != e[ci].0@);
                    } else {
                        assert(e[ci].0@ != e[cj].0@);
                    }
                }
            }
            assert forall|k: Seq<char>| k != code@ && old(self).has(k) implies self.record(k)
                == old(self).record(k) by {
                let j = choose|j: int| 0 <= j < old_entries.len() && old_entries[j].0@ == k;
                assert(e[j].0@ == k);
                let j2 = choose|j2: int| 0 <= j2 < e.len() && e[j2].0@ == k;
                assert(j2 == j) by {
                    if j2 != j {
                        if j2 < j {
                            assert(e[j2].0@ != e[j].0@);
                        } else {
                            assert(e[j].0@ != e[j2].0@);
                        }
                    }
                }
                assert(j2 < old_entries.len());
                let j3 = choose|j3: int| 0 <= j3 < old_entries.len() && old_entries[j3].0@ == k;
                assert(j3 == j) by {
                    if j3 != j {
                        if j3 < j {
                            assert(old_entries[j3].0@ != old_entries[j].0@);
                        } else {
                            assert(old_entries[j].0@ != old_entries[j3].0@);
                        }
                    }
                }
            }
        }
    }

    /// Number of codes in the dictionary.
    pub fn len(&self) -> (r: usize)
        ensures
            r == self.size(),
    {
        self.entries.len()
    }

    /// The record for `code`, if any.
    pub fn get(&self, code: &[char]) -> (r: Option<&DtcRecord>)
        ensures
            match r {
                Some(rec) => self.has(code@) && rec@ == self.record(code@),
                None => !self.has(code@),
            },
    {
        proof {
            use_type_invariant(self);
        }
        match self.position(code) {
            Some(i) => {
                proof {
                    let e = self.entries@;
                    let cj = choose|j: int| 0 <= j < e.len() && e[j].0@ == code@;
                    assert(cj == i) by {
                        if cj != i {
                            if cj < i {
                                assert(e[cj].0@ != e[i as int].0@);
                            } else {
                                assert(e[i as int].0@ != e[cj].0@);
                            }
                        }
                    }
                }
                Some(&self.entries[i].1)
            },
            None => None,
        }
    }
}

fn chars_eq_vec(a: &[char], b: &[char]) -> (r: bool)
    ensures
        r == (a@ == b@),
{
    if a.len() != b.len() {
        return false;
    }
    let mut i: usize = 0;
    while i < a.len()
        invariant
            i <= a@.len() == b@.len(),
            forall|k: int| 0 <= k < i ==> a@[k] == b@[k],
        decreases a@.len() - i,
    {
        if a[i] != b[i] {
            return false;
        }
        i = i + 1;
    }
    proof {
        assert(a@ =~= b@);
    }
    true
}

/// Number of codes in the dictionary.
pub fn dtc_database_count(db: &DtcDatabase) -> (r: usize)
    ensures
        r == db.size(),
{
    db.len()
}

/// A code as looked up: trimmed and upper-cased.
pub open spec fn normalized_code(code: Seq<char>) -> Seq<char> {
    upper_of(trim_ws(code))
}

/// The five-character-prefix alias of a normalized code: its first five UTF-8 bytes.
pub open spec fn alias_code(norm: Seq<char>) -> Seq<char> {
    decode_utf8(encode_utf8(norm).take(5))
}

/// Whether the lookup would cut a longer code at a byte that is not a character boundary.
pub open spec fn alias_cut_inside_char(norm: Seq<char>) -> bool {
    encode_utf8(norm).len() > 5 && !is_char_boundary(encode_utf8(norm), 5)
}

/// The dictionary record for a normalized code: exact code first, else its five-byte
/// prefix for a longer code.
pub open spec fn dictionary_record(db: DtcDatabase, norm: Seq<char>) -> Option<DtcRecordView> {
    if db.has(norm) {
        Some(db.record(norm))
    } else if encode_utf8(norm).len() > 5 && db.has(alias_code(norm)) {
        Some(db.record(alias_code(norm)))
    } else {
        None
    }
}

/// The translation a record offers in a language, with its fallback language.
pub open spec fn record_text(rec: DtcRecordView, lang: Language) -> Option<Seq<char>> {
    match lang {
        Language::De => if rec.de is Some {
            rec.de
        } else {
            rec.en
        },
        Language::Sv => if rec.sv is Some {
            rec.sv
        } else {
            rec.en
        },
        Language::En => if rec.en is Some {
            rec.en
        } else {
            rec.de
        },
    }
}

/// The generic description of an unknown code.
pub open spec fn generic_description(code: Seq<char>, lang: Language) -> Seq<char> {
    match lang {
        Language::En => "Manufacturer or Standard DTC "@ + code,
        Language::De => "Hersteller- oder Standard-Fehlercode "@ + code,
        Language::Sv => "Tillverkarspecifik eller standard felkod "@ + code,
    }
}

/// Whether looking up `code` would cut it inside a character.
pub open spec fn lookup_cuts_char(code: Seq<char>, lang: Language, db: DtcDatabase) -> bool {
    let norm = normalized_code(code);
    &&& curated_description(lang, norm) is None
    &&& !db.has(norm)
    &&& alias_cut_inside_char(norm)
}

/// The description of a code: curated text, else the dictionary's translation, else a
/// generic description naming the code as given.
pub open spec fn dtc_description(code: Seq<char>, lang: Language, db: DtcDatabase) -> Seq<char> {
    let norm = normalized_code(code);
    match curated_description(lang, norm) {
        Some(t) => t,
        None => match dictionary_record(db, norm) {
            Some(rec) => match record_text(rec, lang) {
                Some(t) => t,
                None => generic_description(code, lang),
            },
            None => generic_description(code, lang),
        },
    }
}

fn clone_text(s: &String) -> (r: String)
    ensures
        r@ == s@,
{
    s.clone()
}

fn record_text_exec(rec: &DtcRecord, lang: Language) -> (r: Option<String>)
    ensures
        opt_text(r) == record_text(rec@, lang),
{
    let first = match lang {
        Language::De => &rec.de,
        Language::Sv => &rec.sv,
        Language::En => &rec.en,
    };
    let second = match lang {
        Language::De => &rec.en,
        Language::Sv => &rec.en,
        Language::En => &rec.de,
    };
    match first {
        Some(t) => Some(clone_text(t)),
        None => match second {
            Some(t) => Some(clone_text(t)),
            None => None,
        },
    }
}

fn describe(code: &str, lang: Language, db: &DtcDatabase) -> (r: Option<String>)
    ensures
        match r {
            Some(s) => !lookup_cuts_char(code@, lang, *db) && s@ == dtc_description(code@, lang, *db),
            None => lookup_cuts_char(code@, lang, *db),
        },
        all_ascii(code@) && code@.len() <= 5 ==> r is Some,
{
    let chars = str_chars(code);
    let t = trim(chars.as_slice());
    let norm = to_upper(t.as_slice());
    proof {
        if all_ascii(code@) && code@.len() <= 5 {
            lemma_trim_ascii(code@);
            assert(is_ascii_chars(norm@));
            vstd::utf8::is_ascii_chars_encode_utf8(norm@);
        }
    }
    let curated = match lang {
        Language::En => curated_en_exec(norm.as_slice()),
        Language::De => curated_de_exec(norm.as_slice()),
        Language::Sv => curated_sv_exec(norm.as_slice()),
    };
    if let Some(text) = curated {
        let mut r = String::new();
        push_str(&mut r, text);
        return Some(r);
    }
    let mut entry = db.get(norm.as_slice());
    if entry.is_none() {
        let ns = crate::text::string_of(norm.as_slice());
        let st = ns.as_str();
        if st.as_bytes().len() > 5 {
            if !st.is_char_boundary(5) {
                return None;
            }
            let (prefix, _) = st.split_at(5);
            let pc = str_chars(prefix);
            proof {
                assert(prefix@ == decode_utf8(encode_utf8(prefix@))) by {
                    vstd::utf8::encode_utf8_decode_utf8(prefix@);
                }
            }
            proof {
                assert(ns@ == norm@);
                assert(st@ == norm@);
                assert(prefix.spec_bytes() =~= encode_utf8(norm@).take(5));
                assert(pc@ == alias_code(norm@));
            }
            entry = db.get(pc.as_slice());
            proof {
                assert(entry is None ==> !db.has(alias_code(norm@)));
                assert(encode_utf8(norm@).len() > 5);
            }
        } else {
            proof {
                assert(st.spec_bytes() == encode_utf8(norm@));
            }
        }
    }
    proof {
        assert(norm@ == normalized_code(code@));
        match entry {
            Some(rec) => assert(dictionary_record(*db, norm@) == Some(rec@)),
            None => {
                assert(!db.has(norm@));
                assert(!(encode_utf8(norm@).len() > 5 && db.has(alias_code(norm@))));
                assert(dictionary_record(*db, norm@) is None);
            },
        }
    }
    if let Some(rec) = entry {
        if let Some(text) = record_text_exec(rec, lang) {
            return Some(text);
        }
    }
    let mut r = String::new();
    match lang {
        Language::En => push_str(&mut r, "Manufacturer or Standard DTC "),
        Language::De => push_str(&mut r, "Hersteller- oder Standard-Fehlercode "),
        Language::Sv => push_str(&mut r, "Tillverkarspecifik eller standard felkod "),
    }
    push_str(&mut r, code);
    Some(r)
}

proof fn lemma_trim_ascii(s: Seq<char>)
    requires
        all_ascii(s),
    ensures
        all_ascii(trim_ws(s)),
        trim_ws(s).len() <= s.len(),
    decreases s.len(),
{
    if s.len() > 0 {
        if is_unicode_whitespace(s[0]) {
            assert(all_ascii(s.drop_first())) by {
                assert forall|i: int| 0 <= i < s.drop_first().len() implies (#[trigger] s.drop_first()[i]
                    as u32) < 128 by {
                    assert(s.drop_first()[i] == s[i + 1]);
                }
            }
            lemma_trim_ascii(s.drop_first());
        } else if is_unicode_whitespace(s.last()) {
            assert(all_ascii(s.drop_last())) by {
                assert forall|i: int| 0 <= i < s.drop_last().len() implies (#[trigger] s.drop_last()[i]
                    as u32) < 128 by {
                    assert(s.drop_last()[i] == s[i]);
                }
            }
            lemma_trim_ascii(s.drop_last());
        }
    }
}

fn cuts_char(code: &str, lang: Language, db: &DtcDatabase) -> (r: bool)
    ensures
        r == lookup_cuts_char(code@, lang, *db),
        all_ascii(code@) && code@.len() <= 5 ==> !r,
{
    let chars = str_chars(code);
    let t = trim(chars.as_slice());
    let norm = to_upper(t.as_slice());
    proof {
        if all_ascii(code@) && code@.len() <= 5 {
            lemma_trim_ascii(code@);
            assert(is_ascii_chars(norm@));
            vstd::utf8::is_ascii_chars_encode_utf8(norm@);
        }
    }
    let curated = match lang {
        Language::En => curated_en_exec(norm.as_slice()),
        Language::De => curated_de_exec(norm.as_slice()),
        Language::Sv => curated_sv_exec(norm.as_slice()),
    };
    if curated.is_some() {
        return false;
    }
    if db.get(norm.as_slice()).is_some() {
        return false;
    }
    let ns = crate::text::string_of(norm.as_slice());
    let st = ns.as_str();
    st.as_bytes().len() > 5 && !st.is_char_boundary(5)
}

/// Describes a diagnostic trouble code in a language: the curated text for common
/// codes, else the dictionary's translation of the code (or of its first five bytes,
/// for a longer code), else a generic description naming the code.
pub fn lookup_dtc_description(code: &str, lang: Language, db: &DtcDatabase) -> (r: String)
    requires
        !lookup_cuts_char(code@, lang, *db),
    ensures
        r@ == dtc_description(code@, lang, *db),
{
    match describe(code, lang, db) {
        Some(s) => s,
        None => {
            proof {
                assert(false);
            }
            String::new()
        },
    }
}

/// Like [`lookup_dtc_description`], except for a code whose five-byte alias would cut a
/// character: then `None`.
pub fn try_lookup_dtc_description(code: &str, lang: Language, db: &DtcDatabase) -> (r: Option<
    String,
>)
    ensures
        match r {
            Some(s) => !lookup_cuts_char(code@, lang, *db) && s@ == dtc_description(code@, lang, *db),
            None => lookup_cuts_char(code@, lang, *db),
        },
        all_ascii(code@) && code@.len() <= 5 ==> r is Some,
{
    if cuts_char(code, lang, db) {
        None
    } else {
        Some(lookup_dtc_description(code, lang, db))
    }
}

} // verus!
