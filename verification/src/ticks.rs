//! Tick configurations: YAML documents whose top-level lists hold entries
//! `{key: [...], value: [...]}` that add metric keys to a beat table, and
//! the metric keys that a list of integers describes.
use vstd::prelude::*;
use crate::beats::{BeatTable, MetricKey, MetricKeyView};
use crate::meter::{checked_beat_sum, int_sum, sums_fit};
use crate::text::{i32_string, signed_decimal};
use crate::yaml_doc::{docs_view, load_yaml_documents, yaml_documents, yaml_documents_view, ListEntry, ListEntryView, YamlDocument, YamlDocumentView};

verus! {

/// Where reading a tick configuration ends: a table, the message of an
/// error, or an input on which reading cannot go on (an empty key, a value
/// item that is not an integer, or a sum of values that leaves `i32`).
pub enum TickOutcome {
    Table(Map<MetricKeyView, Seq<i32>>),
    Failed(Seq<char>),
    Stuck,
}

/// Every item is an integer.
pub open spec fn all_ints(items: Seq<Option<i64>>) -> bool {
    forall|i: int| 0 <= i < items.len() ==> #[trigger] items[i] is Some
}

/// The items as `i32` values (each integer taken modulo 2^32).
pub open spec fn as_i32s(items: Seq<Option<i64>>) -> Seq<i32> {
    items.map_values(|x: Option<i64>| x->0 as i32)
}

/// The key that integers `v` describe: two give a standard key, any other
/// number a composite key whose denominator is the last.
pub open spec fn tick_key(v: Seq<i32>) -> MetricKeyView {
    if v.len() == 2 {
        MetricKeyView::Standard(v[0], v[1])
    } else {
        MetricKeyView::Composite(v, v.last())
    }
}

/// The message of a standard key whose values do not add up to its
/// numerator.
pub open spec fn sum_message(a: i32, b: i32) -> Seq<char> {
    "The sum of the integers in the value must be equal to the first element of the key: Standard(("@
        + signed_decimal(a as int) + ", "@ + signed_decimal(b as int) + "))"@
}

/// What one entry does to table `t`. An entry without a `key` list or a
/// `value` list is passed over.
pub open spec fn entry_step(t: Map<MetricKeyView, Seq<i32>>, e: ListEntryView) -> TickOutcome {
    match (e.key, e.value) {
        (Some(k), Some(v)) => if !all_ints(k) {
            TickOutcome::Failed("Invalid key format"@)
        } else if k.len() == 0 || !all_ints(v) {
            TickOutcome::Stuck
        } else {
            let key = as_i32s(k);
            let vals = as_i32s(v);
            match tick_key(key) {
                MetricKeyView::Composite(ks, last) => TickOutcome::Table(
                    t.insert(MetricKeyView::Composite(ks, last), ks),
                ),
                MetricKeyView::Standard(a, b) => if !sums_fit(vals) {
                    TickOutcome::Stuck
                } else if int_sum(vals) == a {
                    TickOutcome::Table(t.insert(MetricKeyView::Standard(a, b), vals))
                } else {
                    TickOutcome::Failed(sum_message(a, b))
                },
            }
        },
        _ => TickOutcome::Table(t),
    }
}

/// What the entries `0..n` do to table `t`, in order; the first error or
/// stop ends it.
pub open spec fn entries_outcome(t: Map<MetricKeyView, Seq<i32>>, es: Seq<ListEntryView>, n: int) -> TickOutcome
    decreases n,
{
    if n <= 0 {
        TickOutcome::Table(t)
    } else {
        match entries_outcome(t, es, n - 1) {
            TickOutcome::Table(t2) => entry_step(t2, es[n - 1]),
            other => other,
        }
    }
}

/// What the documents `0..n` do to table `t`: the entries of each
/// document that is a list, in order.
pub open spec fn documents_outcome(t: Map<MetricKeyView, Seq<i32>>, ds: Seq<YamlDocumentView>, n: int) -> TickOutcome
    decreases n,
{
    if n <= 0 {
        TickOutcome::Table(t)
    } else {
        match documents_outcome(t, ds, n - 1) {
            TickOutcome::Table(t2) => match ds[n - 1].list {
                Some(es) => entries_outcome(t2, es, es.len() as int),
                None => TickOutcome::Table(t2),
            },
            other => other,
        }
    }
}

/// Whether a result matches an outcome: `None` for a stop.
pub open spec fn matches_outcome(r: Option<Result<BeatTable, String>>, o: TickOutcome) -> bool {
    match o {
        TickOutcome::Table(m) => r matches Some(Ok(t)) && t@ == m,
        TickOutcome::Failed(msg) => r matches Some(Err(s)) && s@ == msg,
        TickOutcome::Stuck => r is None,
    }
}

fn sum_error(a: i32, b: i32) -> (s: String)
    ensures
        s@ == sum_message(a, b),
{
    let mut s =
        "The sum of the integers in the value must be equal to the first element of the key: Standard(("
        .to_owned();
    s.append(i32_string(a).as_str());
    s.append(", ");
    s.append(i32_string(b).as_str());
    s.append("))");
    s
}

/// The items as `i32` values, or `None` where one is not an integer.
fn int_values(items: &Vec<Option<i64>>) -> (r: Option<Vec<i32>>)
    ensures
        match r {
            Some(v) => all_ints(items@) && v@ == as_i32s(items@),
            None => !all_ints(items@),
        },
{
    let mut v: Vec<i32> = Vec::new();
    let mut i: usize = 0;
    while i < items.len()
        invariant
            i <= items@.len(),
            v@.len() == i,
            forall|j: int| 0 <= j < i ==> #[trigger] items@[j] is Some,
            forall|j: int| 0 <= j < i ==> #[trigger] v@[j] == items@[j]->0 as i32,
        decreases items.len() - i,
    {
        match items[i] {
            Some(x) => {
                v.push(x as i32);
            },
            None => {
                return None;
            },
        }
        i = i + 1;
    }
    assert(v@ =~= as_i32s(items@));
    Some(v)
}

impl BeatTable {
    /// Applies one tick entry; `None` where reading cannot go on.
    fn apply_tick_entry(&mut self, entry: &ListEntry) -> (r: Option<Result<(), String>>)
        ensures
            match entry_step(old(self)@, entry@) {
                TickOutcome::Table(m) => r == Some(Ok::<(), String>(())) && final(self)@ == m,
                TickOutcome::Failed(msg) => r matches Some(Err(s)) && s@ == msg,
                TickOutcome::Stuck => r is None,
            },
    {
        let (key_items, value_items) = match (&entry.key, &entry.value) {
            (Some(k), Some(v)) => (k, v),
            _ => {
                return Some(Ok(()));
            },
        };
        let key = match int_values(key_items) {
            Some(k) => k,
            None => {
                return Some(Err("Invalid key format".to_owned()));
            },
        };
        if key.len() == 0 {
            return None;
        }
        let values = match int_values(value_items) {
            Some(v) => v,
            None => {
                return None;
            },
        };
        if key.len() == 2 {
            let a = key[0];
            let b = key[1];
            match checked_beat_sum(&values) {
                None => None,
                Some(total) => {
                    if total == a {
                        self.insert(MetricKey::Standard((a, b)), values);
                        Some(Ok(()))
                    } else {
                        Some(Err(sum_error(a, b)))
                    }
                },
            }
        } else {
            let last = key[key.len() - 1];
            let key_copy = key.clone();
            assert(key_copy@ =~= key@);
            self.insert(MetricKey::Composite((key_copy, last)), key);
            Some(Ok(()))
        }
    }

    /// Adds the entries of tick documents to this table, in order: `None`
    /// where reading cannot go on, else the table or the first error.
    pub fn with_tick_documents(self, docs: &Vec<YamlDocument>) -> (r: Option<Result<BeatTable, String>>)
        ensures
            matches_outcome(
                r,
                documents_outcome(
                    self@,
                    docs_view(docs@),
                    docs@.len() as int,
                ),
            ),
    {
        let ghost ds = docs_view(docs@);
        let ghost start = self@;
        let mut table = self;
        let mut di: usize = 0;
        while di < docs.len()
            invariant
                di <= docs@.len(),
                ds == docs_view(docs@),
                start == self@,
                documents_outcome(start, ds, di as int) == TickOutcome::Table(table@),
            decreases docs.len() - di,
        {
            let doc = &docs[di];
            assert(ds[di as int] == doc@);
            match &doc.list {
                None => {},
                Some(entries) => {
                    let ghost es = entries@.map_values(|e: ListEntry| e@);
                    let ghost before = table@;
                    let mut ei: usize = 0;
                    while ei < entries.len()
                        invariant
                            ei <= entries@.len(),
                            di < docs@.len(),
                            ds.len() == docs@.len(),
                            ds == docs_view(docs@),
                            start == self@,
                            es == entries@.map_values(|e: ListEntry| e@),
                            ds[di as int].list == Some(es),
                            documents_outcome(start, ds, di as int) == TickOutcome::Table(before),
                            entries_outcome(before, es, ei as int) == TickOutcome::Table(table@),
                        decreases entries.len() - ei,
                    {
                        let entry = &entries[ei];
                        assert(es[ei as int] == entry@);
                        let ghost tb = table@;
                        assert(entries_outcome(before, es, ei + 1) == entry_step(tb, es[ei as int]));
                        match table.apply_tick_entry(entry) {
                            None => {
                                proof {
                                    lemma_entries_stop(before, es, ei as int + 1);
                                    assert(documents_outcome(start, ds, di as int + 1) == entries_outcome(
                                        before,
                                        es,
                                        es.len() as int,
                                    ));
                                    lemma_documents_stop(start, ds, di as int + 1);
                                }
                                return None;
                            },
                            Some(Err(e)) => {
                                proof {
                                    lemma_entries_stop(before, es, ei as int + 1);
                                    assert(documents_outcome(start, ds, di as int + 1) == entries_outcome(
                                        before,
                                        es,
                                        es.len() as int,
                                    ));
                                    lemma_documents_stop(start, ds, di as int + 1);
                                }
                                return Some(Err(e));
                            },
                            Some(Ok(())) => {},
                        }
                        ei = ei + 1;
                    }
                },
            }
            di = di + 1;
        }
        Some(Ok(table))
    }
}

/// Once the entries stop being a table, later entries change nothing.
proof fn lemma_entries_stop(t: Map<MetricKeyView, Seq<i32>>, es: Seq<ListEntryView>, n: int)
    requires
        0 <= n <= es.len(),
        !(entries_outcome(t, es, n) is Table),
    ensures
        entries_outcome(t, es, es.len() as int) == entries_outcome(t, es, n),
    decreases es.len() - n,
{
    if n < es.len() {
        lemma_entries_stop(t, es, n + 1);
    }
}

/// Once the documents stop being a table, later documents change nothing.
proof fn lemma_documents_stop(t: Map<MetricKeyView, Seq<i32>>, ds: Seq<YamlDocumentView>, n: int)
    requires
        0 <= n <= ds.len(),
        !(documents_outcome(t, ds, n) is Table),
    ensures
        documents_outcome(t, ds, ds.len() as int) == documents_outcome(t, ds, n),
    decreases ds.len() - n,
{
    if n < ds.len() {
        lemma_documents_stop(t, ds, n + 1);
    }
}

/// Reads a tick configuration from the YAML text `text` on top of
/// `defaults`: the scanner's message where the text cannot be read, `None`
/// where reading cannot go on, else the table or the first error.
pub fn load_ticks_from_str(defaults: BeatTable, text: &str) -> (r: Option<Result<BeatTable, String>>)
    ensures
        match yaml_documents(text@) {
            Err(e) => r matches Some(Err(s)) && s@ == e,
            Ok(ds) => matches_outcome(r, documents_outcome(defaults@, ds, ds.len() as int)),
        },
{
    match load_yaml_documents(text) {
        Err(e) => Some(Err(e)),
        Ok(docs) => defaults.with_tick_documents(&docs),
    }
}

/// Why a list of integers describes no metric key.
#[derive(Debug, Clone, Copy, PartialEq, Eq, Structural)]
pub enum MetricKeyError {
    /// Fewer than two elements; the count is given.
    InvalidLength(usize),
    /// The last element is not a power of two below 512.
    BadDenominator,
}

/// The denominators a metric key may have: powers of two below 512.
pub open spec fn key_denominator(d: i32) -> bool {
    d == 1 || d == 2 || d == 4 || d == 8 || d == 16 || d == 32 || d == 64 || d == 128 || d == 256
}

/// The metric key that `v` describes: the last element is the denominator;
/// one element before it gives a standard key, more a composite one.
pub open spec fn key_of_elements(v: Seq<i32>) -> Result<MetricKeyView, MetricKeyError> {
    if v.len() < 2 {
        Err(MetricKeyError::InvalidLength(v.len() as usize))
    } else if !key_denominator(v.last()) {
        Err(MetricKeyError::BadDenominator)
    } else if v.len() == 2 {
        Ok(MetricKeyView::Standard(v[0], v.last()))
    } else {
        Ok(MetricKeyView::Composite(v.drop_last(), v.last()))
    }
}

impl MetricKey {
    /// The metric key that a list of integers describes (see
    /// [`key_of_elements`]).
    pub fn from_elements(elements: Vec<i32>) -> (r: Result<MetricKey, MetricKeyError>)
        ensures
            match (r, key_of_elements(elements@)) {
                (Ok(k), Ok(kv)) => k@ == kv,
                (Err(e), Err(ev)) => e == ev,
                _ => false,
            },
    {
        let mut v = elements;
        if v.len() < 2 {
            return Err(MetricKeyError::InvalidLength(v.len()));
        }
        let ghost all = v@;
        let last = match v.pop() {
            Some(x) => x,
            None => {
                return Err(MetricKeyError::InvalidLength(0));
            },
        };
        assert(v@ =~= all.drop_last());
        if !(last == 1 || last == 2 || last == 4 || last == 8 || last == 16 || last == 32 || last == 64
            || last == 128 || last == 256) {
            return Err(MetricKeyError::BadDenominator);
        }
        if v.len() == 1 {
            Ok(MetricKey::Standard((v[0], last)))
        } else {
            Ok(MetricKey::Composite((v, last)))
        }
    }
}

} // verus!
