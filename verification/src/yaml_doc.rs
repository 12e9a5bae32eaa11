//! What the YAML loader reads from a text, kept as plain values: for each
//! document, the entries of its top-level mapping and of its top-level list,
//! as far as the configuration readers look into them.
use vstd::prelude::*;
use crate::beats::{entries_view, ConfigEntry, ConfigEntryView};
use yaml_rust::{Yaml, YamlLoader};

verus! {

/// The integers of a YAML node that is a sequence: one item per element,
/// `None` for an element that is not an integer.
pub open spec fn int_items_view(v: Option<Vec<Option<i64>>>) -> Option<Seq<Option<i64>>> {
    match v {
        Some(items) => Some(items@),
        None => None,
    }
}

/// One element of a top-level list whose elements are mappings with the
/// fields `key` and `value`, each read as a sequence of integers.
#[derive(Debug)]
pub struct ListEntry {
    pub key: Option<Vec<Option<i64>>>,
    pub value: Option<Vec<Option<i64>>>,
}

/// The mathematical value of a [`ListEntry`].
pub struct ListEntryView {
    pub key: Option<Seq<Option<i64>>>,
    pub value: Option<Seq<Option<i64>>>,
}

impl View for ListEntry {
    type V = ListEntryView;

    open spec fn view(&self) -> ListEntryView {
        ListEntryView { key: int_items_view(self.key), value: int_items_view(self.value) }
    }
}

/// One document: the entries of its top-level mapping, where it is a
/// mapping, and the entries of its top-level list, where it is a list.
#[derive(Debug)]
pub struct YamlDocument {
    pub mapping: Option<Vec<ConfigEntry>>,
    pub list: Option<Vec<ListEntry>>,
}

/// The mathematical value of a [`YamlDocument`].
pub struct YamlDocumentView {
    pub mapping: Option<Seq<ConfigEntryView>>,
    pub list: Option<Seq<ListEntryView>>,
}

impl View for YamlDocument {
    type V = YamlDocumentView;

    open spec fn view(&self) -> YamlDocumentView {
        YamlDocumentView {
            mapping: match self.mapping {
                Some(es) => Some(entries_view(es@)),
                None => None,
            },
            list: match self.list {
                Some(es) => Some(es@.map_values(|e: ListEntry| e@)),
                None => None,
            },
        }
    }
}

/// The views of a list of documents.
pub open spec fn docs_view(ds: Seq<YamlDocument>) -> Seq<YamlDocumentView> {
    ds.map_values(|d: YamlDocument| d@)
}

/// The view of what reading a YAML text gives: the scanner's error text or
/// the documents.
pub open spec fn yaml_documents_view(r: Result<Vec<YamlDocument>, String>) -> Result<
    Seq<YamlDocumentView>,
    Seq<char>,
> {
    match r {
        Ok(ds) => Ok(docs_view(ds@)),
        Err(e) => Err(e@),
    }
}

/// What the YAML loader reads from `text`, in the shape of
/// [`yaml_documents_view`].
pub uninterp spec fn yaml_documents(text: Seq<char>) -> Result<Seq<YamlDocumentView>, Seq<char>>;

/// Reads `text` with `yaml_rust::YamlLoader::load_from_str`, or gives the
/// scanner's error text. Of each document it keeps the top-level mapping's
/// entries (key as a string, value as a sequence of integers) and the
/// top-level list's entries (fields `key` and `value`, each as a sequence of
/// integers). The result is named by [`yaml_documents`]: it depends on
/// `text` alone.
#[verifier::external_body]
pub(crate) fn load_yaml_documents(text: &str) -> (r: Result<Vec<YamlDocument>, String>)
    ensures
        yaml_documents_view(r) == yaml_documents(text@),
{
    let ints = |y: &Yaml| y.as_vec().map(|xs| xs.iter().map(Yaml::as_i64).collect());
    let docs = YamlLoader::load_from_str(text).map_err(|e| e.to_string())?;
    Ok(docs.iter().map(|d| YamlDocument {
        mapping: d.as_hash().map(|h| h.iter().map(|(k, v)| ConfigEntry {
            key: k.as_str().map(String::from),
            items: ints(v),
        }).collect()),
        list: d.as_vec().map(|es| es.iter().map(|e| ListEntry {
            key: ints(&e["key"]),
            value: ints(&e["value"]),
        }).collect()),
    }).collect())
}

} // verus!
