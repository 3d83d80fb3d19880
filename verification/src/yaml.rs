//! Parameters read from a YAML document holding a flat key-value mapping.

use vstd::prelude::*;
use serde_yaml::Value;
use crate::param::{Param, param_views};

verus! {

#[verifier::external_type_specification]
#[verifier::external_body]
pub struct ExYamlError(serde_yaml::Error);

/// A YAML value as the parameter reader sees it: scalars keep their text,
/// collections and tagged values only their kind.
#[derive(Debug)]
pub enum YamlValue {
    Null,
    Bool(bool),
    /// A number, held as the text that `serde_yaml` displays for it.
    Number(String),
    Text(String),
    Sequence,
    Mapping,
    Tagged,
}

pub enum YamlValueView {
    Null,
    Bool(bool),
    Number(Seq<char>),
    Text(Seq<char>),
    Sequence,
    Mapping,
    Tagged,
}

impl View for YamlValue {
    type V = YamlValueView;

    open spec fn view(&self) -> YamlValueView {
        match self {
            YamlValue::Null => YamlValueView::Null,
            YamlValue::Bool(b) => YamlValueView::Bool(*b),
            YamlValue::Number(n) => YamlValueView::Number(n@),
            YamlValue::Text(s) => YamlValueView::Text(s@),
            YamlValue::Sequence => YamlValueView::Sequence,
            YamlValue::Mapping => YamlValueView::Mapping,
            YamlValue::Tagged => YamlValueView::Tagged,
        }
    }
}

/// One entry of a top-level mapping: its key as a string, where the key is
/// one (looking through a tag), whether the key carries a tag, and its value.
#[derive(Debug)]
pub struct YamlEntry {
    pub key: Option<String>,
    pub key_tagged: bool,
    pub value: YamlValue,
}

/// An entry as its key text, whether the key is tagged, and its value.
pub type EntryView = (Option<Seq<char>>, bool, YamlValueView);

impl View for YamlEntry {
    type V = EntryView;

    open spec fn view(&self) -> EntryView {
        (
            match self.key {
                Some(k) => Some(k@),
                None => None,
            },
            self.key_tagged,
            self.value@,
        )
    }
}

/// A parsed YAML document: a mapping with its entries in document order, or
/// any other value.
#[derive(Debug)]
pub enum YamlDocument {
    Mapping(Vec<YamlEntry>),
    Other(YamlValue),
}

pub enum YamlDocumentView {
    Mapping(Seq<EntryView>),
    Other(YamlValueView),
}

pub open spec fn entry_views(es: Seq<YamlEntry>) -> Seq<EntryView> {
    es.map_values(|e: YamlEntry| e@)
}

impl View for YamlDocument {
    type V = YamlDocumentView;

    open spec fn view(&self) -> YamlDocumentView {
        match self {
            YamlDocument::Mapping(es) => YamlDocumentView::Mapping(entry_views(es@)),
            YamlDocument::Other(v) => YamlDocumentView::Other(v@),
        }
    }
}

/// No two entries whose keys are untagged strings have the same key text.
pub open spec fn untagged_keys_distinct(es: Seq<EntryView>) -> bool {
    forall|i: int, j: int|
        0 <= i < j < es.len() && !es[i].1 && !es[j].1 && es[i].0 is Some && es[j].0 is Some
            ==> es[i].0 != es[j].0
}

/// No entry's key carries a tag.
pub open spec fn no_tagged_keys(es: Seq<EntryView>) -> bool {
    forall|i: int| 0 <= i < es.len() ==> !es[i].1
}

/// No two parameters share a key.
pub open spec fn keys_distinct(ps: Seq<(Seq<char>, Seq<char>)>) -> bool {
    forall|i: int, j: int| 0 <= i < j < ps.len() ==> ps[i].0 != ps[j].0
}

/// The document that `serde_yaml` reads from `text`, or `None` where it
/// reports an error.
pub uninterp spec fn yaml_document(text: Seq<char>) -> Option<YamlDocumentView>;

/// `serde_yaml::from_str::<serde_yaml::Value>`, with the result converted to
/// a `YamlDocument`: the entries of a top-level mapping in order, each key
/// through `Value::as_str`, each number through its `Display` text. The
/// contract claims that the result is a function of the text, and that the
/// keys of a mapping are distinct values, so that no two untagged string keys
/// have the same text (`serde_yaml` refuses a mapping with a repeated key).
/// The YAML grammar is `serde_yaml`'s and is not stated here.
#[verifier::external_body]
fn parse_yaml(text: &str) -> (r: Result<YamlDocument, serde_yaml::Error>)
    ensures
        match r {
            Ok(d) => yaml_document(text@) == Some(d@),
            Err(_) => yaml_document(text@) is None,
        },
        r matches Ok(YamlDocument::Mapping(es)) ==> untagged_keys_distinct(entry_views(es@)),
{
    let item = |v| match v {
        Value::Null => YamlValue::Null,
        Value::Bool(b) => YamlValue::Bool(b),
        Value::Number(n) => YamlValue::Number(n.to_string()),
        Value::String(s) => YamlValue::Text(s),
        Value::Sequence(_) => YamlValue::Sequence,
        Value::Mapping(_) => YamlValue::Mapping,
        Value::Tagged(_) => YamlValue::Tagged,
    };
    Ok(match serde_yaml::from_str(text)? {
        Value::Mapping(m) => YamlDocument::Mapping(m.into_iter().map(|(k, v)| YamlEntry {
            key: k.as_str().map(String::from), key_tagged: matches!(k, Value::Tagged(_)), value: item(v),
        }).collect()),
        v => YamlDocument::Other(item(v)),
    })
}

/// The text a parameter takes from a YAML value: strings as they are,
/// numbers as displayed, booleans as `true` or `false`; no text for null,
/// collections and tagged values.
pub open spec fn value_text(v: YamlValueView) -> Option<Seq<char>> {
    match v {
        YamlValueView::Text(s) => Some(s),
        YamlValueView::Number(s) => Some(s),
        YamlValueView::Bool(b) => Some(if b { "true"@ } else { "false"@ }),
        _ => None,
    }
}

/// The parameters of mapping entries, in order: one for each entry whose key
/// is a string and whose value has a text.
pub open spec fn entry_params(es: Seq<EntryView>) -> Seq<(Seq<char>, Seq<char>)>
    decreases es.len(),
{
    if es.len() == 0 {
        seq![]
    } else {
        let rest = entry_params(es.drop_last());
        match (es.last().0, value_text(es.last().2)) {
            (Some(k), Some(t)) => rest.push((k, t)),
            _ => rest,
        }
    }
}

/// Each parameter of mapping entries takes its key from one of the entries.
pub proof fn lemma_entry_param_keys_from_entries(es: Seq<EntryView>)
    ensures
        forall|p: int|
            0 <= p < entry_params(es).len() ==> exists|i: int|
                0 <= i < es.len() && es[i].0 == Some(#[trigger] entry_params(es)[p].0),
    decreases es.len(),
{
    if es.len() > 0 {
        let init = es.drop_last();
        lemma_entry_param_keys_from_entries(init);
        let rest = entry_params(init);
        assert forall|p: int| 0 <= p < entry_params(es).len() implies exists|i: int|
            0 <= i < es.len() && es[i].0 == Some(#[trigger] entry_params(es)[p].0) by {
            if p < rest.len() {
                assert(entry_params(es)[p] == rest[p]);
                let i = choose|i: int| 0 <= i < init.len() && init[i].0 == Some(rest[p].0);
                assert(es[i] == init[i]);
            } else {
                assert(es[es.len() - 1].0 == Some(entry_params(es)[p].0));
            }
        }
    }
}

/// The entries of a mapping with untagged, distinct keys give parameters with
/// distinct keys.
pub proof fn lemma_entry_param_keys_distinct(es: Seq<EntryView>)
    requires
        untagged_keys_distinct(es),
        no_tagged_keys(es),
    ensures
        keys_distinct(entry_params(es)),
    decreases es.len(),
{
    if es.len() > 0 {
        let init = es.drop_last();
        assert(untagged_keys_distinct(init)) by {
            assert forall|i: int, j: int|
                0 <= i < j < init.len() && !init[i].1 && !init[j].1 && init[i].0 is Some && init[j].0 is Some
                    implies init[i].0 != init[j].0 by {
                assert(init[i] == es[i] && init[j] == es[j]);
            }
        }
        assert(no_tagged_keys(init)) by {
            assert forall|i: int| 0 <= i < init.len() implies !init[i].1 by {
                assert(init[i] == es[i]);
            }
        }
        lemma_entry_param_keys_distinct(init);
        lemma_entry_param_keys_from_entries(init);
        let rest = entry_params(init);
        let last = es.len() - 1;
        if entry_params(es) != rest {
            let all = entry_params(es);
            assert(all == rest.push(all[rest.len() as int]));
            assert(es[last].0 == Some(all[rest.len() as int].0));
            assert forall|a: int, b: int| 0 <= a < b < all.len() implies all[a].0 != all[b].0 by {
                if b == rest.len() {
                    assert(all[a] == rest[a]);
                    let i = choose|i: int| 0 <= i < init.len() && init[i].0 == Some(#[trigger] rest[a].0);
                    assert(es[i] == init[i]);
                    assert(!es[i].1 && !es[last].1);
                } else {
                    assert(all[a] == rest[a] && all[b] == rest[b]);
                }
            }
        }
    }
}

/// The parameters of a document: those of its entries where it is a mapping,
/// none otherwise.
pub open spec fn document_params(d: YamlDocumentView) -> Seq<(Seq<char>, Seq<char>)> {
    match d {
        YamlDocumentView::Mapping(es) => entry_params(es),
        YamlDocumentView::Other(_) => seq![],
    }
}

/// The text of a YAML value, where it has one.
pub fn yaml_value_text(v: &YamlValue) -> (r: Option<String>)
    ensures
        match r {
            Some(s) => value_text(v@) == Some(s@),
            None => value_text(v@) is None,
        },
{
    match v {
        YamlValue::Text(s) => Some(s.clone()),
        YamlValue::Number(n) => Some(n.clone()),
        YamlValue::Bool(b) => Some(
            if *b {
                String::from_str("true")
            } else {
                String::from_str("false")
            },
        ),
        _ => None,
    }
}

/// The parameters that the entries of a top-level mapping give.
pub fn params_from_entries(entries: &Vec<YamlEntry>) -> (r: Vec<Param>)
    ensures
        param_views(r@) == entry_params(entry_views(entries@)),
{
    let mut params: Vec<Param> = Vec::new();
    let mut i: usize = 0;
    while i < entries.len()
        invariant
            i <= entries.len(),
            param_views(params@) == entry_params(entry_views(entries@.take(i as int))),
        decreases entries.len() - i,
    {
        let e = &entries[i];
        assert(entry_views(entries@.take(i + 1)).drop_last() =~= entry_views(entries@.take(i as int)));
        assert(entry_views(entries@.take(i + 1)).last() == e@);
        match (&e.key, yaml_value_text(&e.value)) {
            (Some(k), Some(t)) => {
                params.push(Param::new(k.clone(), t));
                assert(param_views(params@) =~= entry_params(entry_views(entries@.take(i as int))).push((k@, t@)));
            },
            _ => {},
        }
        i = i + 1;
    }
    assert(entries@.take(entries.len() as int) =~= entries@);
    params
}

/// The parameters that a parsed document gives.
pub fn document_params_of(doc: &YamlDocument) -> (r: Vec<Param>)
    ensures
        param_views(r@) == document_params(doc@),
{
    match doc {
        YamlDocument::Mapping(entries) => params_from_entries(entries),
        YamlDocument::Other(_) => {
            let r: Vec<Param> = Vec::new();
            assert(param_views(r@) =~= seq![]);
            r
        },
    }
}

/// A YAML text that could not be parsed.
#[derive(Debug)]
pub struct YamlError {
    pub cause: serde_yaml::Error,
}

/// The parameters of a YAML text holding a flat key-value mapping: one for
/// each entry whose key is a string and whose value is a string, a number or
/// a boolean, in document order. A text that is not YAML is an error; one
/// that holds no mapping gives no parameters.
pub fn yaml_params(text: &str) -> (r: Result<Vec<Param>, YamlError>)
    ensures
        match yaml_document(text@) {
            None => r is Err,
            Some(d) => r matches Ok(ps) && param_views(ps@) == document_params(d) && (d matches
                YamlDocumentView::Mapping(es) && no_tagged_keys(es) ==> keys_distinct(param_views(ps@))),
        },
{
    match parse_yaml(text) {
        Ok(doc) => {
            proof {
                if let YamlDocument::Mapping(es) = &doc {
                    if no_tagged_keys(entry_views(es@)) {
                        lemma_entry_param_keys_distinct(entry_views(es@));
                    }
                }
            }
            Ok(document_params_of(&doc))
        },
        Err(e) => Err(YamlError { cause: e }),
    }
}

} // verus!
