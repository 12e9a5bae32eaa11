//! Metric keys (time signatures) and the table of default beat groupings,
//! read from a YAML configuration whose top-level mapping sends keys
//! `"<numerator>/<denominator>"` to lists of group sizes.
use vstd::prelude::*;
use crate::yaml_doc::{load_yaml_documents, yaml_documents, YamlDocumentView};
use crate::strings::{decimal_i32, i32_parse_error_text, parse_i32, split_first, split_once, split_view, trim, trimmed};

verus! {

/// A time signature as a key of the beat table: a standard `(numerator,
/// denominator)` pair, or composite group sizes with a denominator.
#[derive(Debug, PartialEq, Eq, Hash)]
pub enum MetricKey {
    Standard((i32, i32)),
    Composite((Vec<i32>, i32)),
}

/// The mathematical value of a [`MetricKey`].
pub enum MetricKeyView {
    Standard(i32, i32),
    Composite(Seq<i32>, i32),
}

impl View for MetricKey {
    type V = MetricKeyView;

    open spec fn view(&self) -> MetricKeyView {
        match self {
            MetricKey::Standard((n, d)) => MetricKeyView::Standard(*n, *d),
            MetricKey::Composite((v, d)) => MetricKeyView::Composite(v@, *d),
        }
    }
}

impl Clone for MetricKey {
    fn clone(&self) -> (k: Self)
        ensures
            k@ == self@,
    {
        match self {
            MetricKey::Standard((n, d)) => MetricKey::Standard((*n, *d)),
            MetricKey::Composite((v, d)) => {
                let w = v.clone();
                assert(w@ =~= v@);
                MetricKey::Composite((w, *d))
            },
        }
    }
}

impl From<(i32, i32)> for MetricKey {
    fn from(pair: (i32, i32)) -> (k: MetricKey) {
        MetricKey::Standard(pair)
    }
}

impl vstd::std_specs::convert::FromSpecImpl<(i32, i32)> for MetricKey {
    open spec fn obeys_from_spec() -> bool {
        true
    }

    open spec fn from_spec(pair: (i32, i32)) -> MetricKey {
        MetricKey::Standard(pair)
    }
}

impl From<(Vec<i32>, i32)> for MetricKey {
    fn from(pair: (Vec<i32>, i32)) -> (k: MetricKey) {
        MetricKey::Composite(pair)
    }
}

impl vstd::std_specs::convert::FromSpecImpl<(Vec<i32>, i32)> for MetricKey {
    open spec fn obeys_from_spec() -> bool {
        true
    }

    open spec fn from_spec(pair: (Vec<i32>, i32)) -> MetricKey {
        MetricKey::Composite(pair)
    }
}

/// Whether two integer lists are equal.
pub(crate) fn same_values(a: &Vec<i32>, b: &Vec<i32>) -> (r: bool)
    ensures
        r == (a@ == b@),
{
    if a.len() != b.len() {
        return false;
    }
    let mut i: usize = 0;
    while i < a.len()
        invariant
            a@.len() == b@.len(),
            i <= a@.len(),
            forall|j: int| 0 <= j < i ==> a@[j] == b@[j],
        decreases a.len() - i,
    {
        if a[i] != b[i] {
            return false;
        }
        i = i + 1;
    }
    assert(a@ =~= b@);
    true
}

impl MetricKey {
    /// Whether two keys denote the same time signature.
    pub fn same_key(&self, other: &MetricKey) -> (r: bool)
        ensures
            r == (self@ == other@),
    {
        match (self, other) {
            (MetricKey::Standard((a, b)), MetricKey::Standard((c, d))) => *a == *c && *b == *d,
            (MetricKey::Composite((v, a)), MetricKey::Composite((w, b))) => *a == *b && same_values(
                v,
                w,
            ),
            _ => false,
        }
    }
}

/// The map that a list of entries gives when inserted in order: a later
/// entry overrides an earlier one with the same key.
pub open spec fn table_map(es: Seq<(MetricKeyView, Seq<i32>)>) -> Map<MetricKeyView, Seq<i32>>
    decreases es.len(),
{
    if es.len() == 0 {
        Map::empty()
    } else {
        table_map(es.drop_last()).insert(es.last().0, es.last().1)
    }
}

/// A table from time signatures to their beat groupings.
#[derive(Debug)]
pub struct BeatTable {
    entries: Vec<(MetricKey, Vec<i32>)>,
}

/// The view of a table entry.
pub open spec fn entry_view(e: (MetricKey, Vec<i32>)) -> (MetricKeyView, Seq<i32>) {
    (e.0@, e.1@)
}

proof fn lemma_table_last(es: Seq<(MetricKeyView, Seq<i32>)>, k: MetricKeyView, i: int)
    requires
        0 <= i < es.len(),
        es[i].0 == k,
        forall|j: int| i < j < es.len() ==> es[j].0 != k,
    ensures
        table_map(es).contains_key(k),
        table_map(es)[k] == es[i].1,
    decreases es.len(),
{
    if i < es.len() - 1 {
        lemma_table_last(es.drop_last(), k, i);
    }
}

proof fn lemma_table_absent(es: Seq<(MetricKeyView, Seq<i32>)>, k: MetricKeyView)
    requires
        forall|j: int| 0 <= j < es.len() ==> es[j].0 != k,
    ensures
        !table_map(es).contains_key(k),
    decreases es.len(),
{
    if es.len() > 0 {
        lemma_table_absent(es.drop_last(), k);
    }
}

impl View for BeatTable {
    type V = Map<MetricKeyView, Seq<i32>>;

    closed spec fn view(&self) -> Map<MetricKeyView, Seq<i32>> {
        table_map(self.entries@.map_values(|e: (MetricKey, Vec<i32>)| entry_view(e)))
    }
}

impl BeatTable {
    /// An empty table.
    pub fn new() -> (t: BeatTable)
        ensures
            t@ == Map::<MetricKeyView, Seq<i32>>::empty(),
    {
        let t = BeatTable { entries: Vec::new() };
        assert(t.entries@.map_values(|e: (MetricKey, Vec<i32>)| entry_view(e)) =~= Seq::empty());
        t
    }

    /// A copy of this table.
    pub fn copy(&self) -> (t: BeatTable)
        ensures
            t@ == self@,
    {
        let ghost es = self.entries@.map_values(|e: (MetricKey, Vec<i32>)| entry_view(e));
        let mut entries: Vec<(MetricKey, Vec<i32>)> = Vec::new();
        let mut i: usize = 0;
        while i < self.entries.len()
            invariant
                i <= self.entries@.len(),
                es == self.entries@.map_values(|e: (MetricKey, Vec<i32>)| entry_view(e)),
                entries@.map_values(|e: (MetricKey, Vec<i32>)| entry_view(e)) =~= es.take(i as int),
            decreases self.entries.len() - i,
        {
            let entry = &self.entries[i];
            let key = entry.0.clone();
            let beats = entry.1.clone();
            assert(beats@ =~= entry.1@);
            let ghost before = entries@;
            entries.push((key, beats));
            proof {
                let mapped = entries@.map_values(|e: (MetricKey, Vec<i32>)| entry_view(e));
                let prev = before.map_values(|e: (MetricKey, Vec<i32>)| entry_view(e));
                assert(prev.len() == before.len());
                assert(before.len() == i);
                assert(entries@ == before.push((key, beats)));
                assert(es[i as int] == entry_view(self.entries@[i as int]));
                assert forall|j: int| 0 <= j < i + 1 implies mapped[j] == es.take(i + 1)[j] by {
                    if j < i {
                        assert(entries@[j] == before[j]);
                        assert(mapped[j] == prev[j]);
                        assert(prev[j] == es.take(i as int)[j]);
                    }
                }
                assert(mapped =~= es.take(i + 1));
            }
            i = i + 1;
        }
        assert(es.take(es.len() as int) =~= es);
        BeatTable { entries }
    }

    /// Sets the beat grouping of `key`, replacing any earlier one.
    pub fn insert(&mut self, key: MetricKey, beats: Vec<i32>)
        ensures
            final(self)@ == old(self)@.insert(key@, beats@),
    {
        let ghost old_es = self.entries@.map_values(|e: (MetricKey, Vec<i32>)| entry_view(e));
        self.entries.push((key, beats));
        let ghost es = self.entries@.map_values(|e: (MetricKey, Vec<i32>)| entry_view(e));
        assert(es.drop_last() =~= old_es);
    }

    /// The beat grouping of `key`, if the table has one.
    pub fn get(&self, key: &MetricKey) -> (r: Option<&Vec<i32>>)
        ensures
            match r {
                Some(v) => self@.contains_key(key@) && v@ == self@[key@],
                None => !self@.contains_key(key@),
            },
    {
        let ghost es = self.entries@.map_values(|e: (MetricKey, Vec<i32>)| entry_view(e));
        let mut i: usize = self.entries.len();
        while i > 0
            invariant
                i <= self.entries@.len(),
                es == self.entries@.map_values(|e: (MetricKey, Vec<i32>)| entry_view(e)),
                forall|j: int| i <= j < es.len() ==> es[j].0 != key@,
            decreases i,
        {
            let entry = &self.entries[i - 1];
            assert(es[i - 1] == entry_view(*entry));
            if entry.0.same_key(key) {
                proof {
                    lemma_table_last(es, key@, i - 1);
                }
                return Some(&entry.1);
            }
            i = i - 1;
        }
        proof {
            lemma_table_absent(es, key@);
        }
        None
    }
}


/// One entry of the top-level mapping of a YAML document, as the beat
/// configuration reads it: the key if it is a string, the value's items if
/// it is a sequence, and each item if it is an integer.
#[derive(Debug)]
pub struct ConfigEntry {
    pub key: Option<String>,
    pub items: Option<Vec<Option<i64>>>,
}

/// The mathematical value of a [`ConfigEntry`].
pub struct ConfigEntryView {
    pub key: Option<Seq<char>>,
    pub items: Option<Seq<Option<i64>>>,
}

impl View for ConfigEntry {
    type V = ConfigEntryView;

    open spec fn view(&self) -> ConfigEntryView {
        ConfigEntryView {
            key: match self.key {
                Some(k) => Some(k@),
                None => None,
            },
            items: match self.items {
                Some(v) => Some(v@),
                None => None,
            },
        }
    }
}

/// The views of a list of configuration entries.
pub open spec fn entries_view(es: Seq<ConfigEntry>) -> Seq<ConfigEntryView> {
    es.map_values(|e: ConfigEntry| e@)
}

/// The view of what reading a YAML text gives: the scanner's error text, or
/// the entries of the first document's top-level mapping (none where the
/// text holds no document; an empty list where the first document is not a
/// mapping).
pub open spec fn documents_view(r: Result<Option<Vec<ConfigEntry>>, String>) -> Result<
    Option<Seq<ConfigEntryView>>,
    Seq<char>,
> {
    match r {
        Ok(Some(es)) => Ok(Some(entries_view(es@))),
        Ok(None) => Ok(None),
        Err(e) => Err(e@),
    }
}

/// The entries of the first document's top-level mapping among what the
/// YAML loader read: none where there is no document, an empty list where
/// the first document is not a mapping.
pub open spec fn first_mapping(docs: Result<Seq<YamlDocumentView>, Seq<char>>) -> Result<
    Option<Seq<ConfigEntryView>>,
    Seq<char>,
> {
    match docs {
        Err(e) => Err(e),
        Ok(ds) => if ds.len() == 0 {
            Ok(None)
        } else {
            match ds[0].mapping {
                Some(es) => Ok(Some(es)),
                None => Ok(Some(Seq::empty())),
            }
        },
    }
}

/// The first mapping of the YAML text `text` (see [`first_mapping`]).
pub open spec fn yaml_first_mapping(text: Seq<char>) -> Result<Option<Seq<ConfigEntryView>>, Seq<char>> {
    first_mapping(yaml_documents(text))
}

/// Reads `text` as YAML and returns the entries of the first document's
/// top-level mapping.
pub fn load_first_mapping(text: &str) -> (r: Result<Option<Vec<ConfigEntry>>, String>)
    ensures
        documents_view(r) == yaml_first_mapping(text@),
{
    match load_yaml_documents(text) {
        Err(e) => Err(e),
        Ok(mut docs) => {
            if docs.len() == 0 {
                return Ok(None);
            }
            let doc = docs.swap_remove(0);
            match doc.mapping {
                Some(entries) => Ok(Some(entries)),
                None => {
                    let empty: Vec<ConfigEntry> = Vec::new();
                    assert(entries_view(empty@) =~= Seq::<ConfigEntryView>::empty());
                    Ok(Some(empty))
                },
            }
        },
    }
}

/// `"<prefix>'<part>': <error>"`, the message of an unreadable number.
pub open spec fn number_message(prefix: Seq<char>, part: Seq<char>) -> Seq<char> {
    prefix + "'"@ + part + "': "@ + i32_parse_error_text(trimmed(part))
}

/// The beat values of a list of YAML items: each must be an integer, taken
/// modulo 2^32 as an `i32`.
pub open spec fn beat_values(items: Seq<Option<i64>>) -> Option<Seq<i32>> {
    if forall|i: int| 0 <= i < items.len() ==> items[i] is Some {
        Some(items.map_values(|x: Option<i64>| x->0 as i32))
    } else {
        None
    }
}

/// What one configuration entry gives: a standard key with its beats, or
/// the message of its first defect.
pub open spec fn entry_outcome(e: ConfigEntryView) -> Result<(MetricKeyView, Seq<i32>), Seq<char>> {
    match e.key {
        None => Err("Failed to convert key to string"@),
        Some(k) => match split_first(k, '/') {
            None => Err("Failed to split key into num and denom"@),
            Some((a, b)) => match decimal_i32(trimmed(a)) {
                None => Err(number_message("Failed to parse numerator "@, a)),
                Some(num) => match decimal_i32(trimmed(b)) {
                    None => Err(number_message("Failed to parse denominator "@, b)),
                    Some(den) => match e.items {
                        None => Err("Failed to convert value to vec"@),
                        Some(items) => match beat_values(items) {
                            None => Err("Failed to convert beat value to i64"@),
                            Some(beats) => Ok((MetricKeyView::Standard(num, den), beats)),
                        },
                    },
                },
            },
        },
    }
}

fn number_error(prefix: &str, part: &str, error: String) -> (m: String)
    ensures
        m@ == prefix@ + "'"@ + part@ + "': "@ + error@,
{
    let mut m = prefix.to_owned();
    m.append("'");
    m.append(part);
    m.append("': ");
    m.append(error.as_str());
    m
}

impl BeatTable {
    /// Reads one configuration entry `"<num>/<denom>": [beats]`.
    pub fn parse_entry(entry: &ConfigEntry) -> (r: Result<(MetricKey, Vec<i32>), String>)
        ensures
            match (r, entry_outcome(entry@)) {
                (Ok((k, v)), Ok((kv, beats))) => k@ == kv && v@ == beats,
                (Err(m), Err(msg)) => m@ == msg,
                _ => false,
            },
    {
        let num_denom = match &entry.key {
            Some(k) => k.as_str(),
            None => {
                return Err("Failed to convert key to string".to_owned());
            },
        };
        let (num_str, denom_str) = match split_once(num_denom, '/') {
            Some(parts) => parts,
            None => {
                return Err("Failed to split key into num and denom".to_owned());
            },
        };
        let num = match parse_i32(trim(num_str)) {
            Ok(n) => n,
            Err(e) => {
                return Err(number_error("Failed to parse numerator ", num_str, e));
            },
        };
        let denom = match parse_i32(trim(denom_str)) {
            Ok(d) => d,
            Err(e) => {
                return Err(number_error("Failed to parse denominator ", denom_str, e));
            },
        };
        let items = match &entry.items {
            Some(items) => items,
            None => {
                return Err("Failed to convert value to vec".to_owned());
            },
        };
        let mut beats: Vec<i32> = Vec::new();
        let mut i: usize = 0;
        while i < items.len()
            invariant
                i <= items@.len(),
                beats@.len() == i,
                forall|j: int| 0 <= j < i ==> items@[j] is Some,
                entry_outcome(entry@) == match beat_values(items@) {
                    None => Err("Failed to convert beat value to i64"@),
                    Some(b) => Ok((MetricKeyView::Standard(num, denom), b)),
                },
                forall|j: int| 0 <= j < i ==> #[trigger] beats@[j] == items@[j]->0 as i32,
            decreases items.len() - i,
        {
            match items[i] {
                Some(v) => {
                    let b: i32 = v as i32;
                    assert(b == items@[i as int]->0 as i32);
                    beats.push(b);
                },
                None => {
                    assert(!(items@[i as int] is Some));
                    return Err("Failed to convert beat value to i64".to_owned());
                },
            }
            i = i + 1;
        }
        assert(beats@ =~= items@.map_values(|x: Option<i64>| x->0 as i32));
        Ok((MetricKey::Standard((num, denom)), beats))
    }
}


/// The table that the entries `es` give when every defective entry is
/// skipped.
pub open spec fn lenient_table(es: Seq<ConfigEntryView>) -> Map<MetricKeyView, Seq<i32>>
    decreases es.len(),
{
    if es.len() == 0 {
        Map::empty()
    } else {
        let m = lenient_table(es.drop_last());
        match entry_outcome(es.last()) {
            Ok((k, v)) => m.insert(k, v),
            Err(_) => m,
        }
    }
}

/// The table that the entries `es` give, or the message of the first
/// defective entry.
pub open spec fn strict_table(es: Seq<ConfigEntryView>) -> Result<Map<MetricKeyView, Seq<i32>>, Seq<char>>
    decreases es.len(),
{
    if es.len() == 0 {
        Ok(Map::empty())
    } else {
        match strict_table(es.drop_last()) {
            Err(e) => Err(e),
            Ok(m) => match entry_outcome(es.last()) {
                Ok((k, v)) => Ok(m.insert(k, v)),
                Err(e) => Err(e),
            },
        }
    }
}

/// What the beat configuration read from a YAML text gives: the scanner's
/// message prefixed, or the table of the first document's entries. `None`
/// where the text holds no document.
pub open spec fn config_outcome(docs: Result<Option<Seq<ConfigEntryView>>, Seq<char>>) -> Option<
    Result<Map<MetricKeyView, Seq<i32>>, Seq<char>>,
> {
    match docs {
        Err(e) => Some(Err("Failed to parse YAML: "@ + e)),
        Ok(None) => None,
        Ok(Some(es)) => Some(strict_table(es)),
    }
}

/// The view of a table or an error message.
pub open spec fn table_result_view(r: Result<BeatTable, String>) -> Result<Map<MetricKeyView, Seq<i32>>, Seq<char>> {
    match r {
        Ok(t) => Ok(t@),
        Err(m) => Err(m@),
    }
}

impl BeatTable {
    /// The table of the entries, defective entries skipped.
    pub fn from_entries_lenient(entries: &Vec<ConfigEntry>) -> (t: BeatTable)
        ensures
            t@ == lenient_table(entries_view(entries@)),
    {
        let ghost es = entries_view(entries@);
        let mut t = BeatTable::new();
        let mut i: usize = 0;
        while i < entries.len()
            invariant
                i <= entries@.len(),
                es == entries_view(entries@),
                t@ == lenient_table(es.take(i as int)),
            decreases entries.len() - i,
        {
            assert(es.take(i + 1).drop_last() =~= es.take(i as int));
            assert(es.take(i + 1).last() == entries@[i as int]@);
            match Self::parse_entry(&entries[i]) {
                Ok((k, v)) => {
                    t.insert(k, v);
                },
                Err(_) => {},
            }
            i = i + 1;
        }
        assert(es.take(entries@.len() as int) =~= es);
        t
    }

    /// The table of the entries, or the message of the first defective one.
    pub fn from_entries_strict(entries: &Vec<ConfigEntry>) -> (r: Result<BeatTable, String>)
        ensures
            table_result_view(r) == strict_table(entries_view(entries@)),
    {
        let ghost es = entries_view(entries@);
        let mut t = BeatTable::new();
        let mut i: usize = 0;
        while i < entries.len()
            invariant
                i <= entries@.len(),
                es == entries_view(entries@),
                strict_table(es.take(i as int)) == Ok::<_, Seq<char>>(t@),
            decreases entries.len() - i,
        {
            assert(es.take(i + 1).drop_last() =~= es.take(i as int));
            assert(es.take(i + 1).last() == entries@[i as int]@);
            match Self::parse_entry(&entries[i]) {
                Ok((k, v)) => {
                    t.insert(k, v);
                },
                Err(e) => {
                    proof {
                        lemma_strict_stops(es, i + 1);
                    }
                    return Err(e);
                },
            }
            i = i + 1;
        }
        assert(es.take(entries@.len() as int) =~= es);
        Ok(t)
    }
}

proof fn lemma_strict_stops(es: Seq<ConfigEntryView>, n: int)
    requires
        0 <= n <= es.len(),
        strict_table(es.take(n)) is Err,
    ensures
        strict_table(es) == strict_table(es.take(n)),
    decreases es.len() - n,
{
    if n < es.len() {
        assert(es.take(n + 1).drop_last() =~= es.take(n));
        lemma_strict_stops(es, n + 1);
    } else {
        assert(es.take(n) =~= es);
    }
}

/// The default beat table of a configuration text: the table of the first
/// document's entries, defective entries skipped; empty where the text
/// cannot be read or holds no document.
pub fn default_beats_from_text(text: &str) -> (t: BeatTable)
    ensures
        t@ == match yaml_first_mapping(text@) {
            Ok(Some(es)) => lenient_table(es),
            _ => Map::empty(),
        },
{
    match load_first_mapping(text) {
        Ok(Some(entries)) => BeatTable::from_entries_lenient(&entries),
        _ => BeatTable::new(),
    }
}

/// The beat configuration of documents read from YAML: the scanner's
/// message prefixed by `"Failed to parse YAML: "`, else the table of the
/// first document's entries or the message of the first defective entry.
pub fn beat_config_from_documents(docs: Result<Option<Vec<ConfigEntry>>, String>) -> (r: Result<BeatTable, String>)
    requires
        !(docs matches Ok(None)),
    ensures
        Some(table_result_view(r)) == config_outcome(documents_view(docs)),
{
    match docs {
        Err(e) => {
            let mut m = "Failed to parse YAML: ".to_owned();
            m.append(e.as_str());
            Err(m)
        },
        Ok(Some(entries)) => BeatTable::from_entries_strict(&entries),
        Ok(None) => Err(String::new()),
    }
}

/// Reads the beat configuration from a YAML text: `None` where the text
/// holds no document, else what [`beat_config_from_documents`] gives.
pub fn load_beat_config_from_str(text: &str) -> (r: Option<Result<BeatTable, String>>)
    ensures
        match r {
            None => config_outcome(yaml_first_mapping(text@)) is None,
            Some(x) => config_outcome(yaml_first_mapping(text@)) == Some(table_result_view(x)),
        },
{
    let docs = load_first_mapping(text);
    match docs {
        Ok(None) => None,
        _ => Some(beat_config_from_documents(docs)),
    }
}

} // verus!
