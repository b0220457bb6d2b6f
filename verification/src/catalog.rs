//! The ECU catalog: metadata and ECU entries keyed by upper-case ECU name, kept in
//! ascending key order, with lookup and keyword search.

use crate::text::{
    contains_chars, is_infix, is_prefix, starts_with_chars, str_chars, to_upper, trim, trim_ws, upper_of,
};
use vstd::prelude::*;

verus! {

/// Statistics describing a catalog.
#[derive(Debug, Clone, PartialEq, Eq)]
pub struct CatalogMetadata {
    pub title: Option<String>,
    pub version: Option<String>,
    pub description: Option<String>,
    pub total_ecus: usize,
    pub total_cbf_files: usize,
    pub unique_ecus: usize,
    pub redundant_file_copies: usize,
}

/// One version of an ECU description file.
#[derive(Debug, Clone, PartialEq, Eq)]
pub struct EcuVersionInfo {
    pub protocol: String,
    pub tx_id: Option<String>,
    pub rx_id: Option<String>,
    pub func_id: Option<String>,
    pub dtc_count: usize,
    pub date: String,
    pub size_bytes: u64,
    pub presentation_count: usize,
    pub primary_path: String,
}

impl Default for EcuVersionInfo {
    fn default() -> (r: Self)
        ensures
            r.protocol@.len() == 0 && r.tx_id is None && r.rx_id is None && r.func_id is None,
            r.dtc_count == 0 && r.date@.len() == 0 && r.size_bytes == 0,
            r.presentation_count == 0 && r.primary_path@.len() == 0,
    {
        EcuVersionInfo {
            protocol: String::new(),
            tx_id: None,
            rx_id: None,
            func_id: None,
            dtc_count: 0,
            date: String::new(),
            size_bytes: 0,
            presentation_count: 0,
            primary_path: String::new(),
        }
    }
}

/// Catalog entry of one ECU.
#[derive(Debug, Clone, PartialEq, Eq)]
pub struct EcuCatalogEntry {
    pub ecu_name: String,
    pub protocol: String,
    pub tx_id: Option<String>,
    pub rx_id: Option<String>,
    pub func_id: Option<String>,
    pub dtc_count: usize,
    pub chassis: Vec<String>,
    pub canonical_version: EcuVersionInfo,
    pub all_chassis_supported: Vec<String>,
    pub total_copies_in_cbf: usize,
    pub distinct_versions_count: usize,
}

/// One hit of a catalog search.
#[derive(Debug, Clone, PartialEq, Eq)]
pub struct EcuSearchResult {
    pub ecu_name: String,
    pub protocol: String,
    pub tx_id: Option<String>,
    pub rx_id: Option<String>,
    pub func_id: Option<String>,
    pub dtc_count: usize,
    pub chassis: Vec<String>,
    pub date: String,
    pub total_copies: usize,
    pub distinct_versions: usize,
    pub primary_path: String,
    pub all_chassis_supported: Vec<String>,
}

/// The ECU catalog. `ecus` holds the entries by name in ascending name order, each name
/// once (`sorted_names`), as a map from name to entry does.
#[derive(Debug, Clone, PartialEq, Eq)]
pub struct EcuCatalog {
    pub metadata: CatalogMetadata,
    pub ecus: Vec<(String, EcuCatalogEntry)>,
}

/// Lexicographic order of texts by code point, the order of `String`s in Rust (which is
/// also the order of their UTF-8 bytes).
pub open spec fn text_lt(a: Seq<char>, b: Seq<char>) -> bool
    decreases a.len(),
{
    if a.len() == 0 {
        b.len() > 0
    } else if b.len() == 0 {
        false
    } else if (a[0] as u32) < (b[0] as u32) {
        true
    } else if a[0] == b[0] {
        text_lt(a.drop_first(), b.drop_first())
    } else {
        false
    }
}

/// The names of `s` ascend strictly.
pub open spec fn sorted_names(s: Seq<(String, EcuCatalogEntry)>) -> bool {
    forall|i: int, j: int| 0 <= i < j < s.len() ==> text_lt(#[trigger] s[i].0@, #[trigger] s[j].0@)
}

/// The map from name to entry that inserting the pairs of `s` in order builds (a later
/// pair for the same name replaces an earlier one).
pub open spec fn pairs_map(s: Seq<(String, EcuCatalogEntry)>) -> Map<Seq<char>, EcuCatalogEntry>
    decreases s.len(),
{
    if s.len() == 0 {
        Map::empty()
    } else {
        pairs_map(s.drop_last()).insert(s.last().0@, s.last().1)
    }
}

pub proof fn lemma_text_lt_irreflexive(a: Seq<char>)
    ensures
        !text_lt(a, a),
    decreases a.len(),
{
    if a.len() > 0 {
        lemma_text_lt_irreflexive(a.drop_first());
    }
}

pub proof fn lemma_text_lt_transitive(a: Seq<char>, b: Seq<char>, c: Seq<char>)
    requires
        text_lt(a, b),
        text_lt(b, c),
    ensures
        text_lt(a, c),
    decreases a.len(),
{
    if a.len() > 0 && b.len() > 0 && c.len() > 0 && a[0] == b[0] && b[0] == c[0] {
        lemma_text_lt_transitive(a.drop_first(), b.drop_first(), c.drop_first());
    }
}

pub proof fn lemma_text_lt_total(a: Seq<char>, b: Seq<char>)
    ensures
        a == b || text_lt(a, b) || text_lt(b, a),
    decreases a.len(),
{
    if a.len() > 0 && b.len() > 0 && a[0] == b[0] {
        lemma_text_lt_total(a.drop_first(), b.drop_first());
        if a.drop_first() == b.drop_first() {
            assert(a =~= seq![a[0]] + a.drop_first());
            assert(b =~= seq![b[0]] + b.drop_first());
        }
    } else if a.len() == 0 && b.len() == 0 {
        assert(a =~= b);
    } else if a.len() > 0 && b.len() > 0 {
        vstd::utf8::char_u32_cast(a[0], a[0] as u32);
        vstd::utf8::char_u32_cast(b[0], b[0] as u32);
        assert((a[0] as u32) != (b[0] as u32));
    }
}

/// Whether `a` comes before `b` (`String` `<`).
pub fn text_before(a: &[char], b: &[char]) -> (r: bool)
    ensures
        r == text_lt(a@, b@),
{
    let mut i: usize = 0;
    proof {
        assert(a@.skip(0) =~= a@);
        assert(b@.skip(0) =~= b@);
    }
    while i < a.len() && i < b.len() && a[i] == b[i]
        invariant
            i <= a@.len(),
            i <= b@.len(),
            text_lt(a@, b@) == text_lt(a@.skip(i as int), b@.skip(i as int)),
        decreases a@.len() - i,
    {
        proof {
            assert(a@.skip(i as int).drop_first() =~= a@.skip(i + 1));
            assert(b@.skip(i as int).drop_first() =~= b@.skip(i + 1));
        }
        i = i + 1;
    }
    if i == a.len() {
        i < b.len()
    } else if i == b.len() {
        false
    } else {
        (a[i] as u32) < (b[i] as u32)
    }
}

proof fn lemma_pairs_map_update(s: Seq<(String, EcuCatalogEntry)>, i: int, p: (String, EcuCatalogEntry))
    requires
        sorted_names(s),
        0 <= i < s.len(),
        s[i].0@ == p.0@,
    ensures
        pairs_map(s.update(i, p)) == pairs_map(s).insert(p.0@, p.1),
    decreases s.len(),
{
    let u = s.update(i, p);
    if i == s.len() - 1 {
        assert(u.drop_last() =~= s.drop_last());
        lemma_pairs_map_absent(s.drop_last(), p.0@);
        assert(pairs_map(s).insert(p.0@, p.1) =~= pairs_map(s.drop_last()).insert(p.0@, p.1));
    } else {
        assert(u.drop_last() =~= s.drop_last().update(i, p));
        assert(sorted_names(s.drop_last()));
        lemma_pairs_map_update(s.drop_last(), i, p);
        assert(s.last().0@ != p.0@) by {
            lemma_text_lt_irreflexive(p.0@);
            assert(text_lt(s[i].0@, s[s.len() - 1].0@));
        }
        assert(pairs_map(u) =~= pairs_map(s).insert(p.0@, p.1));
    }
}

proof fn lemma_pairs_map_absent(s: Seq<(String, EcuCatalogEntry)>, k: Seq<char>)
    requires
        forall|j: int| 0 <= j < s.len() ==> text_lt(#[trigger] s[j].0@, k),
    ensures
        !pairs_map(s).contains_key(k),
    decreases s.len(),
{
    if s.len() > 0 {
        lemma_text_lt_irreflexive(k);
        assert(text_lt(s[s.len() - 1].0@, k));
        lemma_pairs_map_absent(s.drop_last(), k);
    }
}

proof fn lemma_pairs_map_insert(s: Seq<(String, EcuCatalogEntry)>, i: int, p: (String, EcuCatalogEntry))
    requires
        0 <= i <= s.len(),
        forall|j: int| 0 <= j < s.len() ==> #[trigger] s[j].0@ != p.0@,
    ensures
        pairs_map(s.insert(i, p)) == pairs_map(s).insert(p.0@, p.1),
    decreases s.len(),
{
    let u = s.insert(i, p);
    if i == s.len() {
        assert(u.drop_last() =~= s);
    } else {
        assert(u.drop_last() =~= s.drop_last().insert(i, p));
        lemma_pairs_map_insert(s.drop_last(), i, p);
        assert(u.last() == s.last());
        assert(s.last().0@ != p.0@);
        assert(pairs_map(u) =~= pairs_map(s).insert(p.0@, p.1));
    }
}

impl EcuCatalog {
    /// An empty catalog with the given metadata.
    pub fn new(metadata: CatalogMetadata) -> (r: Self)
        ensures
            r.metadata == metadata,
            r.ecus@.len() == 0,
    {
        EcuCatalog { metadata, ecus: Vec::new() }
    }

    /// Puts an entry under `name`, replacing the entry already there (`BTreeMap::insert`).
    pub fn insert(&mut self, name: String, entry: EcuCatalogEntry)
        requires
            sorted_names(old(self).ecus@),
        ensures
            sorted_names(final(self).ecus@),
            pairs_map(final(self).ecus@) == pairs_map(old(self).ecus@).insert(name@, entry),
            final(self).metadata == old(self).metadata,
    {
        let key = str_chars(name.as_str());
        let mut pos: usize = 0;
        while pos < self.ecus.len()
            invariant
                pos <= self.ecus@.len(),
                key@ == name@,
                sorted_names(self.ecus@),
                forall|j: int| 0 <= j < pos ==> text_lt(#[trigger] self.ecus@[j].0@, name@),
            ensures
                pos <= self.ecus@.len(),
                forall|j: int| 0 <= j < pos ==> text_lt(#[trigger] self.ecus@[j].0@, name@),
                pos < self.ecus@.len() ==> !text_lt(self.ecus@[pos as int].0@, name@),
            decreases self.ecus@.len() - pos,
        {
            let here = str_chars(self.ecus[pos].0.as_str());
            if !text_before(here.as_slice(), key.as_slice()) {
                break;
            }
            pos = pos + 1;
        }
        let ghost old_ecus = self.ecus@;
        let same = if pos < self.ecus.len() {
            let here = str_chars(self.ecus[pos].0.as_str());
            !text_before(key.as_slice(), here.as_slice())
        } else {
            false
        };
        proof {
            if pos < old_ecus.len() {
                lemma_text_lt_total(old_ecus[pos as int].0@, name@);
            }
        }
        let ghost p = (name, entry);
        if same {
            proof {
                lemma_pairs_map_update(old_ecus, pos as int, p);
            }
            self.ecus.set(pos, (name, entry));
            proof {
                assert forall|i: int, j: int| 0 <= i < j < self.ecus@.len() implies text_lt(
                    #[trigger] self.ecus@[i].0@,
                    #[trigger] self.ecus@[j].0@,
                ) by {
                    assert(text_lt(old_ecus[i].0@, old_ecus[j].0@));
                }
            }
        } else {
            proof {
                assert forall|j: int| 0 <= j < old_ecus.len() implies #[trigger] old_ecus[j].0@ != p.0@ by {
                    lemma_text_lt_irreflexive(p.0@);
                    if j >= pos {
                        if j > pos {
                            lemma_text_lt_transitive(p.0@, old_ecus[pos as int].0@, old_ecus[j].0@);
                        }
                    }
                }
                lemma_pairs_map_insert(old_ecus, pos as int, p);
            }
            self.ecus.insert(pos, (name, entry));
            proof {
                assert forall|i: int, j: int| 0 <= i < j < self.ecus@.len() implies text_lt(
                    #[trigger] self.ecus@[i].0@,
                    #[trigger] self.ecus@[j].0@,
                ) by {
                    let n = self.ecus@;
                    if j < pos {
                        assert(text_lt(old_ecus[i].0@, old_ecus[j].0@));
                    } else if j == pos {
                        assert(n[j].0@ == name@);
                    } else if i < pos {
                        assert(n[j] == old_ecus[j - 1]);
                        assert(text_lt(old_ecus[i].0@, name@));
                        lemma_text_lt_transitive(old_ecus[i].0@, name@, old_ecus[pos as int].0@);
                        if j - 1 > pos {
                            lemma_text_lt_transitive(old_ecus[i].0@, old_ecus[pos as int].0@, old_ecus[j - 1].0@);
                        }
                    } else if i == pos {
                        assert(n[j] == old_ecus[j - 1]);
                        if j - 1 > pos {
                            lemma_text_lt_transitive(name@, old_ecus[pos as int].0@, old_ecus[j - 1].0@);
                        }
                    } else {
                        assert(text_lt(old_ecus[i - 1].0@, old_ecus[j - 1].0@));
                    }
                }
            }
        }
    }
}

/// `h` is `e` with its fields made consistent, as a catalog is after loading: an empty
/// chassis list or supported-chassis list is filled from the other, zero version and copy
/// counts become one, and a canonical version without protocol takes the entry's
/// protocol, ids and trouble code count.
pub open spec fn harmonized(e: EcuCatalogEntry, h: EcuCatalogEntry) -> bool {
    let all = if e.all_chassis_supported@.len() == 0 { e.chassis@ } else { e.all_chassis_supported@ };
    let chassis = if e.chassis@.len() == 0 { all } else { e.chassis@ };
    let v = e.canonical_version;
    let hv = h.canonical_version;
    &&& h.ecu_name == e.ecu_name && h.protocol == e.protocol
    &&& h.tx_id == e.tx_id && h.rx_id == e.rx_id && h.func_id == e.func_id
    &&& h.dtc_count == e.dtc_count
    &&& h.all_chassis_supported@ == all && h.chassis@ == chassis
    &&& h.distinct_versions_count == (if e.distinct_versions_count == 0 { 1 } else { e.distinct_versions_count })
    &&& h.total_copies_in_cbf == (if e.total_copies_in_cbf == 0 { 1 } else { e.total_copies_in_cbf })
    &&& hv.date == v.date && hv.size_bytes == v.size_bytes && hv.presentation_count == v.presentation_count
    &&& hv.primary_path == v.primary_path
    &&& if v.protocol@.len() == 0 {
        &&& hv.protocol == e.protocol && hv.tx_id == e.tx_id && hv.rx_id == e.rx_id && hv.func_id == e.func_id
        &&& hv.dtc_count == e.dtc_count
    } else {
        &&& hv.protocol == v.protocol && hv.tx_id == v.tx_id && hv.rx_id == v.rx_id && hv.func_id == v.func_id
        &&& hv.dtc_count == v.dtc_count
    }
}

fn clone_text(o: &Option<String>) -> (r: Option<String>)
    ensures
        r == *o,
{
    match o {
        Some(s) => Some(s.clone()),
        None => None,
    }
}

fn clone_strings(v: &Vec<String>) -> (r: Vec<String>)
    ensures
        r@ == v@,
{
    let mut r: Vec<String> = Vec::new();
    let mut i: usize = 0;
    while i < v.len()
        invariant
            i <= v@.len(),
            r@ == v@.take(i as int),
        decreases v@.len() - i,
    {
        r.push(v[i].clone());
        proof {
            assert(v@.take(i + 1) =~= v@.take(i as int).push(v@[i as int]));
        }
        i = i + 1;
    }
    proof {
        assert(v@.take(v@.len() as int) =~= v@);
    }
    r
}

/// The entry with its fields made consistent (`harmonized`).
fn harmonize_entry(e: &EcuCatalogEntry) -> (h: EcuCatalogEntry)
    ensures
        harmonized(*e, h),
{
    let all = if e.all_chassis_supported.len() == 0 {
        clone_strings(&e.chassis)
    } else {
        clone_strings(&e.all_chassis_supported)
    };
    let chassis = if e.chassis.len() == 0 {
        clone_strings(&all)
    } else {
        clone_strings(&e.chassis)
    };
    let v = &e.canonical_version;
    let from_entry = v.protocol.as_str().is_empty();
    let canonical_version = EcuVersionInfo {
        protocol: if from_entry { e.protocol.clone() } else { v.protocol.clone() },
        tx_id: if from_entry { clone_text(&e.tx_id) } else { clone_text(&v.tx_id) },
        rx_id: if from_entry { clone_text(&e.rx_id) } else { clone_text(&v.rx_id) },
        func_id: if from_entry { clone_text(&e.func_id) } else { clone_text(&v.func_id) },
        dtc_count: if from_entry { e.dtc_count } else { v.dtc_count },
        date: v.date.clone(),
        size_bytes: v.size_bytes,
        presentation_count: v.presentation_count,
        primary_path: v.primary_path.clone(),
    };
    EcuCatalogEntry {
        ecu_name: e.ecu_name.clone(),
        protocol: e.protocol.clone(),
        tx_id: clone_text(&e.tx_id),
        rx_id: clone_text(&e.rx_id),
        func_id: clone_text(&e.func_id),
        dtc_count: e.dtc_count,
        chassis,
        canonical_version,
        all_chassis_supported: all,
        total_copies_in_cbf: if e.total_copies_in_cbf == 0 { 1 } else { e.total_copies_in_cbf },
        distinct_versions_count: if e.distinct_versions_count == 0 { 1 } else { e.distinct_versions_count },
    }
}

impl EcuCatalog {
    /// A catalog of the given pairs, inserted in order (a later pair for a name replaces
    /// an earlier one), as a map read from a file is.
    pub fn from_entries(metadata: CatalogMetadata, entries: Vec<(String, EcuCatalogEntry)>) -> (r: Self)
        ensures
            r.metadata == metadata,
            sorted_names(r.ecus@),
            pairs_map(r.ecus@) == pairs_map(entries@),
    {
        let mut cat = EcuCatalog::new(metadata);
        let mut rest = entries;
        let ghost all = rest@;
        let ghost mut i: int = 0;
        proof {
            assert(all.take(0) =~= Seq::<(String, EcuCatalogEntry)>::empty());
            assert(all.skip(0) =~= all);
            assert(pairs_map(cat.ecus@) =~= pairs_map(all.take(0)));
        }
        while rest.len() > 0
            invariant
                0 <= i <= all.len(),
                rest@ == all.skip(i),
                cat.metadata == metadata,
                sorted_names(cat.ecus@),
                pairs_map(cat.ecus@) == pairs_map(all.take(i)),
            decreases rest@.len(),
        {
            let (name, entry) = rest.remove(0);
            proof {
                assert(all.take(i + 1).drop_last() =~= all.take(i));
                assert(all.take(i + 1).last() == all[i]);
                assert(all[i] == (name, entry));
            }
            cat.insert(name, entry);
            proof {
                assert(rest@ =~= all.skip(i + 1));
                i = i + 1;
            }
        }
        proof {
            assert(all.take(i) =~= all);
        }
        cat
    }

    /// Makes every entry's fields consistent (`harmonized`), as loading a catalog does.
    pub fn harmonize(&mut self)
        ensures
            final(self).metadata == old(self).metadata,
            final(self).ecus@.len() == old(self).ecus@.len(),
            forall|i: int| 0 <= i < old(self).ecus@.len() ==> (#[trigger] final(self).ecus@[i]).0 == old(self).ecus@[i].0
                && harmonized(old(self).ecus@[i].1, final(self).ecus@[i].1),
    {
        let mut out: Vec<(String, EcuCatalogEntry)> = Vec::new();
        let mut i: usize = 0;
        while i < self.ecus.len()
            invariant
                i <= self.ecus@.len(),
                out@.len() == i,
                forall|j: int| 0 <= j < i ==> (#[trigger] out@[j]).0 == self.ecus@[j].0 && harmonized(
                    self.ecus@[j].1,
                    out@[j].1,
                ),
            decreases self.ecus@.len() - i,
        {
            let h = harmonize_entry(&self.ecus[i].1);
            out.push((self.ecus[i].0.clone(), h));
            i = i + 1;
        }
        self.ecus = out;
    }

    /// The catalog's metadata.
    pub fn stats(&self) -> (r: &CatalogMetadata)
        ensures
            *r == self.metadata,
    {
        &self.metadata
    }
}

/// Index of the first entry named `name`.
pub open spec fn name_index(s: Seq<(String, EcuCatalogEntry)>, name: Seq<char>) -> Option<int>
    decreases s.len(),
{
    if s.len() == 0 {
        None
    } else if s[0].0@ == name {
        Some(0)
    } else {
        match name_index(s.drop_first(), name) {
            Some(i) => Some(i + 1),
            None => None,
        }
    }
}

/// The search key of a query: trimmed and upper-cased.
pub open spec fn search_key(query: Seq<char>) -> Seq<char> {
    upper_of(trim_ws(query))
}

/// An entry stored under `name` matches the search key `q`: every entry matches an empty
/// key, else the key must occur in the name or in an upper-cased supported chassis.
pub open spec fn entry_matches(name: Seq<char>, e: EcuCatalogEntry, q: Seq<char>) -> bool {
    ||| q.len() == 0
    ||| is_infix(q, name)
    ||| exists|c: int| 0 <= c < e.all_chassis_supported@.len() && is_infix(q, upper_of(#[trigger] e.all_chassis_supported@[c]@))
}

/// Indices of the entries of `s` that match `q`, in order.
pub open spec fn hit_indices(s: Seq<(String, EcuCatalogEntry)>, q: Seq<char>) -> Seq<int>
    decreases s.len(),
{
    if s.len() == 0 {
        Seq::empty()
    } else if entry_matches(s.last().0@, s.last().1, q) {
        hit_indices(s.drop_last(), q).push(s.len() - 1)
    } else {
        hit_indices(s.drop_last(), q)
    }
}

/// The search result describing entry `e`.
pub open spec fn result_for(e: EcuCatalogEntry, r: EcuSearchResult) -> bool {
    &&& r.ecu_name == e.ecu_name && r.protocol == e.protocol
    &&& r.tx_id == e.tx_id && r.rx_id == e.rx_id && r.func_id == e.func_id
    &&& r.dtc_count == e.dtc_count && r.chassis@ == e.chassis@
    &&& r.date == e.canonical_version.date && r.total_copies == e.total_copies_in_cbf
    &&& r.distinct_versions == e.distinct_versions_count
    &&& r.primary_path == e.canonical_version.primary_path
    &&& r.all_chassis_supported@ == e.all_chassis_supported@
}

/// Relevance order of result names for key `q`: an exact match first, then names that
/// start with the key, then by name.
pub open spec fn rank_before(a: Seq<char>, b: Seq<char>, q: Seq<char>) -> bool {
    let ea = a == q;
    let eb = b == q;
    let sa = is_prefix(q, a);
    let sb = is_prefix(q, b);
    (ea && !eb) || (ea == eb && ((sa && !sb) || (sa == sb && text_lt(a, b))))
}

/// Stable relevance order of positions `i`, `j` whose names are `names`: by rank, and
/// equally ranked positions keep their order.
pub open spec fn order_before(names: Seq<Seq<char>>, q: Seq<char>, i: int, j: int) -> bool {
    rank_before(names[i], names[j], q) || (names[i] == names[j] && i < j)
}

/// `p` lists the positions `0..names.len()` in stable relevance order.
pub open spec fn relevance_order(p: Seq<int>, names: Seq<Seq<char>>, q: Seq<char>) -> bool {
    &&& p.len() == names.len()
    &&& forall|k: int| 0 <= k < p.len() ==> 0 <= #[trigger] p[k] < names.len()
    &&& forall|a: int, b: int| 0 <= a < b < p.len() ==> order_before(names, q, #[trigger] p[a], #[trigger] p[b])
}

/// `out` is the search result for key `q` with at most `limit` shown, the hits of `s`
/// taken in relevance order `p`.
pub open spec fn search_output(
    s: Seq<(String, EcuCatalogEntry)>,
    q: Seq<char>,
    limit: nat,
    p: Seq<int>,
    out: Seq<EcuSearchResult>,
) -> bool {
    let hits = hit_indices(s, q);
    let names = hits.map_values(|h: int| s[h].1.ecu_name@);
    &&& relevance_order(p, names, q)
    &&& out.len() == shown(p.len(), limit)
    &&& forall|k: int| 0 <= k < out.len() ==> result_for(s[hits[p[k]]].1, #[trigger] out[k])
}

/// How many results are shown of `n`: all, or at most `limit` when it is not zero.
pub open spec fn shown(n: nat, limit: nat) -> nat {
    if limit > 0 && n > limit {
        limit
    } else {
        n
    }
}

proof fn lemma_rank_transitive(a: Seq<char>, b: Seq<char>, c: Seq<char>, q: Seq<char>)
    requires
        rank_before(a, b, q),
        rank_before(b, c, q),
    ensures
        rank_before(a, c, q),
{
    if text_lt(a, b) && text_lt(b, c) {
        lemma_text_lt_transitive(a, b, c);
    }
}

proof fn lemma_rank_total(a: Seq<char>, b: Seq<char>, q: Seq<char>)
    ensures
        a == b || rank_before(a, b, q) || rank_before(b, a, q),
{
    lemma_text_lt_total(a, b);
}

proof fn lemma_rank_irreflexive(a: Seq<char>, q: Seq<char>)
    ensures
        !rank_before(a, a, q),
{
    lemma_text_lt_irreflexive(a);
}

proof fn lemma_order_facts(names: Seq<Seq<char>>, q: Seq<char>, i: int, j: int, k: int)
    ensures
        order_before(names, q, i, j) && order_before(names, q, j, k) ==> order_before(names, q, i, k),
        i != j ==> order_before(names, q, i, j) || order_before(names, q, j, i),
        !order_before(names, q, i, i),
        order_before(names, q, i, j) ==> !order_before(names, q, j, i),
{
    lemma_rank_irreflexive(names[i], q);
    lemma_rank_total(names[i], names[j], q);
    if rank_before(names[i], names[j], q) && rank_before(names[j], names[i], q) {
        lemma_rank_transitive(names[i], names[j], names[i], q);
    }
    if order_before(names, q, i, j) && order_before(names, q, j, k) {
        if rank_before(names[i], names[j], q) && rank_before(names[j], names[k], q) {
            lemma_rank_transitive(names[i], names[j], names[k], q);
        }
    }
}

/// Whether two texts are equal.
fn same_text(a: &[char], b: &[char]) -> (r: bool)
    ensures
        r == (a@ == b@),
{
    proof {
        lemma_text_lt_total(a@, b@);
        lemma_text_lt_irreflexive(a@);
    }
    !text_before(a, b) && !text_before(b, a)
}

/// Whether name `a` ranks before name `b` for key `q`.
fn ranks_before(a: &[char], b: &[char], q: &[char]) -> (r: bool)
    ensures
        r == rank_before(a@, b@, q@),
{
    let ea = same_text(a, q);
    let eb = same_text(b, q);
    let sa = starts_with_chars(a, q);
    let sb = starts_with_chars(b, q);
    (ea && !eb) || (ea == eb && ((sa && !sb) || (sa == sb && text_before(a, b))))
}

/// The search result describing an entry.
fn search_result_of(e: &EcuCatalogEntry) -> (r: EcuSearchResult)
    ensures
        result_for(*e, r),
{
    EcuSearchResult {
        ecu_name: e.ecu_name.clone(),
        protocol: e.protocol.clone(),
        tx_id: clone_text(&e.tx_id),
        rx_id: clone_text(&e.rx_id),
        func_id: clone_text(&e.func_id),
        dtc_count: e.dtc_count,
        chassis: clone_strings(&e.chassis),
        date: e.canonical_version.date.clone(),
        total_copies: e.total_copies_in_cbf,
        distinct_versions: e.distinct_versions_count,
        primary_path: e.canonical_version.primary_path.clone(),
        all_chassis_supported: clone_strings(&e.all_chassis_supported),
    }
}

/// Whether the entry stored under `name` matches key `q`.
fn matches_entry(name: &String, e: &EcuCatalogEntry, q: &[char]) -> (r: bool)
    ensures
        r == entry_matches(name@, *e, q@),
{
    if q.len() == 0 {
        return true;
    }
    let n = str_chars(name.as_str());
    if contains_chars(n.as_slice(), q) {
        return true;
    }
    let mut c: usize = 0;
    while c < e.all_chassis_supported.len()
        invariant
            c <= e.all_chassis_supported@.len(),
            q@.len() > 0,
            !is_infix(q@, name@),
            forall|k: int| 0 <= k < c ==> !is_infix(q@, upper_of(#[trigger] e.all_chassis_supported@[k]@)),
        decreases e.all_chassis_supported@.len() - c,
    {
        let cs = str_chars(e.all_chassis_supported[c].as_str());
        let up = to_upper(cs.as_slice());
        if contains_chars(up.as_slice(), q) {
            return true;
        }
        c = c + 1;
    }
    false
}

impl EcuCatalog {
    /// The entry of an ECU, looked up by its upper-cased name.
    pub fn get_ecu(&self, ecu: &str) -> (r: Option<&EcuCatalogEntry>)
        ensures
            match name_index(self.ecus@, upper_of(ecu@)) {
                Some(i) => r == Some(&self.ecus@[i].1),
                None => r is None,
            },
    {
        let chars = str_chars(ecu);
        let upper = to_upper(chars.as_slice());
        let mut i: usize = 0;
        proof {
            assert(self.ecus@.skip(0) =~= self.ecus@);
        }
        while i < self.ecus.len()
            invariant
                i <= self.ecus@.len(),
                upper@ == upper_of(ecu@),
                name_index(self.ecus@, upper@) == match name_index(self.ecus@.skip(i as int), upper@) {
                    Some(k) => Some(k + i),
                    None => None::<int>,
                },
            decreases self.ecus@.len() - i,
        {
            let key = str_chars(self.ecus[i].0.as_str());
            proof {
                assert(self.ecus@.skip(i as int)[0] == self.ecus@[i as int]);
                assert(self.ecus@.skip(i as int).drop_first() =~= self.ecus@.skip(i + 1));
            }
            if same_text(key.as_slice(), upper.as_slice()) {
                return Some(&self.ecus[i].1);
            }
            i = i + 1;
        }
        None
    }

    /// Searches by name or chassis keyword: the entries matching the trimmed, upper-cased
    /// query (`entry_matches`), ordered by relevance (exact name, then name prefix, then
    /// name; ties keep catalog order), at most `limit` of them when `limit` is not zero.
    pub fn search(&self, query: &str, limit: usize) -> (r: Vec<EcuSearchResult>)
        ensures
            exists|p: Seq<int>| #[trigger] search_output(self.ecus@, search_key(query@), limit as nat, p, r@),
    {
        let chars = str_chars(query);
        let trimmed = trim(chars.as_slice());
        let q = to_upper(trimmed.as_slice());
        let ghost key = search_key(query@);
        // entries that match, in catalog order
        let mut hits: Vec<usize> = Vec::new();
        let mut names: Vec<Vec<char>> = Vec::new();
        let mut i: usize = 0;
        proof {
            assert(self.ecus@.take(0) =~= Seq::<(String, EcuCatalogEntry)>::empty());
        }
        while i < self.ecus.len()
            invariant
                i <= self.ecus@.len(),
                q@ == key,
                hits@.len() == names@.len(),
                hits@.map_values(|h: usize| h as int) == hit_indices(self.ecus@.take(i as int), key),
                forall|k: int| 0 <= k < hits@.len() ==> #[trigger] hits@[k] < i,
                forall|k: int| 0 <= k < names@.len() ==> (#[trigger] names@[k])@ == self.ecus@[hits@[k] as int].1.ecu_name@,
            decreases self.ecus@.len() - i,
        {
            let m = matches_entry(&self.ecus[i].0, &self.ecus[i].1, q.as_slice());
            proof {
                let s = self.ecus@.take(i + 1);
                assert(s.drop_last() =~= self.ecus@.take(i as int));
                assert(s.last() == self.ecus@[i as int]);
            }
            if m {
                let ghost before = hits@;
                hits.push(i);
                names.push(str_chars(self.ecus[i].1.ecu_name.as_str()));
                proof {
                    assert(hits@.map_values(|h: usize| h as int) =~= before.map_values(|h: usize| h as int).push(i as int));
                }
            }
            i = i + 1;
        }
        proof {
            assert(self.ecus@.take(i as int) =~= self.ecus@);
        }
        let ghost hit_seq = hit_indices(self.ecus@, key);
        let ghost name_seq = hit_seq.map_values(|h: int| self.ecus@[h].1.ecu_name@);
        proof {
            assert forall|k: int| 0 <= k < names@.len() implies (#[trigger] names@[k])@ == name_seq[k] by {
                assert(hit_seq[k] == hits@[k] as int);
            }
        }
        // stable insertion sort of the positions by relevance
        let mut order: Vec<usize> = Vec::new();
        let mut j: usize = 0;
        while j < names.len()
            invariant
                j <= names@.len(),
                q@ == key,
                names@.len() == name_seq.len(),
                forall|k: int| 0 <= k < names@.len() ==> (#[trigger] names@[k])@ == name_seq[k],
                order@.len() == j,
                forall|k: int| 0 <= k < order@.len() ==> #[trigger] order@[k] < j,
                forall|a: int, b: int| 0 <= a < b < order@.len() ==> order_before(name_seq, key, #[trigger] order@[a] as int, #[trigger] order@[b] as int),
            decreases names@.len() - j,
        {
            let mut pos: usize = order.len();
            while pos > 0 && ranks_before(names[j].as_slice(), names[order[pos - 1]].as_slice(), q.as_slice())
                invariant
                    pos <= order@.len(),
                    j < names@.len(),
                    q@ == key,
                    names@.len() == name_seq.len(),
                    forall|k: int| 0 <= k < names@.len() ==> (#[trigger] names@[k])@ == name_seq[k],
                    forall|k: int| 0 <= k < order@.len() ==> #[trigger] order@[k] < j,
                    forall|k: int| pos <= k < order@.len() ==> order_before(name_seq, key, j as int, #[trigger] order@[k] as int),
                decreases pos,
            {
                proof {
                    assert(order_before(name_seq, key, j as int, order@[pos - 1] as int));
                }
                pos = pos - 1;
            }
            let ghost old_order = order@;
            proof {
                if pos > 0 {
                    let x = old_order[pos - 1] as int;
                    lemma_order_facts(name_seq, key, x, j as int, j as int);
                    assert(!rank_before(name_seq[j as int], name_seq[x], key));
                    assert(order_before(name_seq, key, x, j as int));
                }
            }
            order.insert(pos, j);
            proof {
                assert forall|a: int, b: int| 0 <= a < b < order@.len() implies order_before(
                    name_seq,
                    key,
                    #[trigger] order@[a] as int,
                    #[trigger] order@[b] as int,
                ) by {
                    if b < pos {
                        assert(order@[a] == old_order[a] && order@[b] == old_order[b]);
                    } else if b == pos {
                        assert(order@[b] == j);
                        assert(order@[a] == old_order[a]);
                        if a < pos - 1 {
                            lemma_order_facts(name_seq, key, old_order[a] as int, old_order[pos - 1] as int, j as int);
                        }
                    } else if a == pos {
                        assert(order@[a] == j);
                        assert(order@[b] == old_order[b - 1]);
                    } else if a < pos {
                        assert(order@[a] == old_order[a] && order@[b] == old_order[b - 1]);
                        assert(order_before(name_seq, key, old_order[a] as int, j as int)) by {
                            if a < pos - 1 {
                                lemma_order_facts(name_seq, key, old_order[a] as int, old_order[pos - 1] as int, j as int);
                            }
                        }
                        lemma_order_facts(name_seq, key, old_order[a] as int, j as int, old_order[b - 1] as int);
                    } else {
                        assert(order@[a] == old_order[a - 1] && order@[b] == old_order[b - 1]);
                    }
                }
            }
            j = j + 1;
        }
        let n = order.len();
        let count = if limit > 0 && n > limit {
            limit
        } else {
            n
        };
        let mut out: Vec<EcuSearchResult> = Vec::new();
        let mut k: usize = 0;
        while k < count
            invariant
                k <= count <= order@.len(),
                order@.len() == hits@.len(),
                hits@.map_values(|h: usize| h as int) == hit_seq,
                forall|x: int| 0 <= x < order@.len() ==> #[trigger] order@[x] < hits@.len(),
                forall|x: int| 0 <= x < hits@.len() ==> #[trigger] hits@[x] < self.ecus@.len(),
                out@.len() == k,
                forall|x: int| 0 <= x < k ==> result_for(self.ecus@[hit_seq[order@[x] as int]].1, #[trigger] out@[x]),
            decreases count - k,
        {
            let h = hits[order[k]];
            proof {
                assert(hit_seq[order@[k as int] as int] == h as int);
            }
            out.push(search_result_of(&self.ecus[h].1));
            k = k + 1;
        }
        let ghost p = order@.map_values(|x: usize| x as int);
        proof {
            assert(relevance_order(p, name_seq, key));
            assert(out@.len() == shown(p.len(), limit as nat));
            assert(search_output(self.ecus@, key, limit as nat, p, out@));
        }
        out
    }
}

/// In a catalog whose names ascend, looking a name up finds exactly the entry the map
/// of its pairs holds under that name: what was last inserted under it, or nothing.
pub proof fn lemma_lookup_reads_the_map(s: Seq<(String, EcuCatalogEntry)>, name: Seq<char>)
    requires
        sorted_names(s),
    ensures
        match name_index(s, name) {
            Some(i) => 0 <= i < s.len() && pairs_map(s).contains_key(name) && pairs_map(s)[name] == s[i].1,
            None => !pairs_map(s).contains_key(name),
        },
    decreases s.len(),
{
    if s.len() > 0 {
        let t = s.drop_first();
        assert(sorted_names(t)) by {
            assert forall|i: int, j: int| 0 <= i < j < t.len() implies text_lt(#[trigger] t[i].0@, #[trigger] t[j].0@) by {
                assert(t[i] == s[i + 1] && t[j] == s[j + 1]);
            }
        }
        lemma_lookup_reads_the_map(t, name);
        lemma_pairs_map_front(s);
        if s[0].0@ == name {
            assert(name_index(s, name) == Some(0int));
            lemma_names_after_first(s);
            lemma_pairs_map_absent_above(t, name);
        } else {
            match name_index(t, name) {
                Some(i) => {
                    assert(t[i] == s[i + 1]);
                },
                None => {},
            }
        }
    }
}

/// Every name after the first of an ascending list is above the first.
proof fn lemma_names_after_first(s: Seq<(String, EcuCatalogEntry)>)
    requires
        sorted_names(s),
        s.len() > 0,
    ensures
        forall|j: int| 0 <= j < s.drop_first().len() ==> text_lt(s[0].0@, #[trigger] s.drop_first()[j].0@),
{
    assert forall|j: int| 0 <= j < s.drop_first().len() implies text_lt(s[0].0@, #[trigger] s.drop_first()[j].0@) by {
        assert(s.drop_first()[j] == s[j + 1]);
    }
}

proof fn lemma_pairs_map_absent_above(s: Seq<(String, EcuCatalogEntry)>, k: Seq<char>)
    requires
        forall|j: int| 0 <= j < s.len() ==> text_lt(k, #[trigger] s[j].0@),
    ensures
        !pairs_map(s).contains_key(k),
    decreases s.len(),
{
    if s.len() > 0 {
        lemma_text_lt_irreflexive(k);
        assert(text_lt(k, s[s.len() - 1].0@));
        lemma_pairs_map_absent_above(s.drop_last(), k);
    }
}

/// The map of a list is the map of its tail with the first pair put in where the tail
/// does not hold its name.
proof fn lemma_pairs_map_front(s: Seq<(String, EcuCatalogEntry)>)
    requires
        s.len() > 0,
    ensures
        forall|k: Seq<char>| #[trigger] pairs_map(s).contains_key(k) <==> (k == s[0].0@ || pairs_map(s.drop_first()).contains_key(k)),
        forall|k: Seq<char>| pairs_map(s.drop_first()).contains_key(k) ==> #[trigger] pairs_map(s)[k] == pairs_map(s.drop_first())[k],
        !pairs_map(s.drop_first()).contains_key(s[0].0@) ==> pairs_map(s)[s[0].0@] == s[0].1,
    decreases s.len(),
{
    if s.len() == 1 {
        assert(s.drop_first() =~= Seq::<(String, EcuCatalogEntry)>::empty());
        assert(s.drop_last() =~= Seq::<(String, EcuCatalogEntry)>::empty());
    } else {
        let d = s.drop_last();
        let t = s.drop_first();
        lemma_pairs_map_front(d);
        assert(d.drop_first() =~= t.drop_last());
        assert(t.last() == s.last());
        assert(d[0] == s[0]);
        let lk = s.last().0@;
        let lv = s.last().1;
        assert(pairs_map(s) == pairs_map(d).insert(lk, lv));
        assert(pairs_map(t) == pairs_map(t.drop_last()).insert(lk, lv));
        assert forall|k: Seq<char>| #[trigger] pairs_map(s).contains_key(k) <==> (k == s[0].0@ || pairs_map(t).contains_key(k)) by {
            assert(pairs_map(d).contains_key(k) <==> (k == s[0].0@ || pairs_map(d.drop_first()).contains_key(k)));
        }
        assert forall|k: Seq<char>| pairs_map(t).contains_key(k) implies #[trigger] pairs_map(s)[k] == pairs_map(t)[k] by {
            if k != lk {
                assert(pairs_map(d.drop_first()).contains_key(k));
            }
        }
        if !pairs_map(t).contains_key(s[0].0@) {
            assert(s[0].0@ != lk);
            assert(!pairs_map(d.drop_first()).contains_key(s[0].0@));
        }
    }
}

} // verus!
