//! Reading the algorithm tables out of JSON text, through `serde_json`.
use vstd::prelude::*;
use crate::parser::csv_parser::{keys_distinct, nested_keys_distinct};

verus! {

/// The part of a JSON document that the two-level tables read: `None` when the
/// top value is not an object; otherwise its entries, each with `None` when the
/// entry's value is not an object, or else that object's entries, each with the
/// entry's string value, or `None` when it is not a string.
pub type JsonDocument = Option<Vec<(String, Option<Vec<(String, Option<String>)>>)>>;

/// The view of a [`JsonDocument`].
pub type JsonDocumentView = Option<Seq<(Seq<char>, Option<Seq<(Seq<char>, Option<Seq<char>>)>>)>>;

/// The keys of a document's top-level object are distinct, and so are those of
/// each object under it: a JSON object is read into a map, which holds each
/// key once.
pub open spec fn document_keys_distinct(doc: JsonDocumentView) -> bool {
    match doc {
        Some(es) => {
            &&& keys_distinct(es)
            &&& forall|i: int| 0 <= i < es.len() ==> (#[trigger] es[i].1 matches Some(inner) ==> keys_distinct(inner))
        },
        None => true,
    }
}

/// What `serde_json` makes of `text` read as a JSON value, seen two levels deep
/// as in [`JsonDocument`] (object entries in the order of its map), or its error
/// message.
pub uninterp spec fn json_two_level_reading(text: Seq<char>) -> Result<
    Option<Seq<(Seq<char>, Option<Seq<(Seq<char>, Option<Seq<char>>)>>)>>,
    Seq<char>,
>;

/// What `serde_json` makes of `text` read as a map from strings to strings (its
/// entries in the order of the map), or its error message.
pub uninterp spec fn json_string_map_reading(text: Seq<char>) -> Result<Seq<(Seq<char>, Seq<char>)>, Seq<char>>;

/// Reads `text` with `serde_json::from_str` as a `serde_json::Value` and keeps
/// the two levels described in [`JsonDocument`]; on a syntax error, the error's
/// message.
///
/// Trusted: the contract ties the result to `text` through the name
/// [`json_two_level_reading`], and states that each object's keys come out
/// once (`serde_json`'s object is a `BTreeMap`); JSON syntax itself is not stated.
#[verifier::external_body]
pub(crate) fn read_json_two_levels(text: &str) -> (r: Result<JsonDocument, String>)
    ensures
        match r {
            Ok(d) => json_two_level_reading(text@) == Ok::<JsonDocumentView, Seq<char>>(d.deep_view()),
            Err(e) => json_two_level_reading(text@) == Err::<JsonDocumentView, Seq<char>>(e@),
        },
        r matches Ok(d) ==> document_keys_distinct(d.deep_view()),
{
    let value: serde_json::Value = serde_json::from_str(text).map_err(|e| e.to_string())?;
    let leaf = |v: serde_json::Value| match v {
        serde_json::Value::String(s) => Some(s),
        _ => None,
    };
    let inner = |v: serde_json::Value| match v {
        serde_json::Value::Object(m) => Some(m.into_iter().map(|(k, v)| (k, leaf(v))).collect()),
        _ => None,
    };
    Ok(match value {
        serde_json::Value::Object(m) => Some(m.into_iter().map(|(k, v)| (k, inner(v))).collect()),
        _ => None,
    })
}

/// Reads `text` with `serde_json::from_str` as a map from strings to strings
/// and lists its entries; on an error (bad syntax, a value that is not a
/// string, a top value that is not an object), the error's message.
///
/// Trusted: the contract ties the result to `text` through the name
/// [`json_string_map_reading`], and states that each key comes out once (the
/// entries are those of a `BTreeMap`).
#[verifier::external_body]
pub(crate) fn read_json_string_map(text: &str) -> (r: Result<Vec<(String, String)>, String>)
    ensures
        match r {
            Ok(v) => json_string_map_reading(text@) == Ok::<Seq<(Seq<char>, Seq<char>)>, Seq<char>>(v.deep_view()),
            Err(e) => json_string_map_reading(text@) == Err::<Seq<(Seq<char>, Seq<char>)>, Seq<char>>(e@),
        },
        r matches Ok(v) ==> keys_distinct(v.deep_view()),
{
    let map: std::collections::BTreeMap<String, String> = serde_json::from_str(text).map_err(
        |e| e.to_string(),
    )?;
    Ok(map.into_iter().collect())
}

/// The string entries of an inner object, in order; entries whose value is not
/// a string are left out.
pub open spec fn string_entries(es: Seq<(Seq<char>, Option<Seq<char>>)>) -> Seq<(Seq<char>, Seq<char>)>
    decreases es.len(),
{
    if es.len() == 0 {
        Seq::empty()
    } else {
        let prev = string_entries(es.drop_last());
        match es.last().1 {
            Some(s) => prev.push((es.last().0, s)),
            None => prev,
        }
    }
}

/// The two-level table of a document: each entry whose value is an object,
/// with that object's string entries; nothing when the top value is not an object.
pub open spec fn nested_table(doc: JsonDocumentView) -> Seq<(Seq<char>, Seq<(Seq<char>, Seq<char>)>)> {
    match doc {
        Some(es) => object_entries_table(es),
        None => Seq::empty(),
    }
}

/// The object entries of the top level, each with its string entries.
pub open spec fn object_entries_table(es: Seq<(Seq<char>, Option<Seq<(Seq<char>, Option<Seq<char>>)>>)>) -> Seq<
    (Seq<char>, Seq<(Seq<char>, Seq<char>)>),
>
    decreases es.len(),
{
    if es.len() == 0 {
        Seq::empty()
    } else {
        let prev = object_entries_table(es.drop_last());
        match es.last().1 {
            Some(inner) => prev.push((es.last().0, string_entries(inner))),
            None => prev,
        }
    }
}

/// Each key of `string_entries(es)` is a key of `es`, and distinct keys stay distinct.
pub proof fn lemma_string_entries_keys(es: Seq<(Seq<char>, Option<Seq<char>>)>)
    ensures
        forall|j: int| 0 <= j < string_entries(es).len() ==> exists|i: int|
            0 <= i < es.len() && es[i].0 == (#[trigger] string_entries(es)[j]).0,
        keys_distinct(es) ==> keys_distinct(string_entries(es)),
    decreases es.len(),
{
    if es.len() > 0 {
        let d = es.drop_last();
        let prev = string_entries(d);
        lemma_string_entries_keys(d);
        let r = string_entries(es);
        let n = es.len() - 1;
        assert forall|j: int| 0 <= j < r.len() implies exists|i: int| 0 <= i < es.len() && es[i].0 == (
        #[trigger] r[j]).0 by {
            if j < prev.len() {
                assert(r[j] == prev[j]);
                let i = choose|i: int| 0 <= i < d.len() && d[i].0 == prev[j].0;
                assert(es[i] == d[i]);
            } else {
                assert(es[n].0 == r[j].0);
            }
        }
        if keys_distinct(es) {
            assert forall|a: int, b: int| #![trigger r[a], r[b]] 0 <= a < b < r.len() implies r[a].0
                != r[b].0 by {
                assert(r[a] == prev[a]);
                let i = choose|i: int| 0 <= i < d.len() && d[i].0 == prev[a].0;
                assert(es[i] == d[i]);
                if b < prev.len() {
                    assert(keys_distinct(d)) by {
                        assert forall|x: int, y: int| #![trigger d[x], d[y]] 0 <= x < y < d.len() implies d[x].0
                            != d[y].0 by {
                            assert(d[x] == es[x] && d[y] == es[y]);
                        }
                    }
                    assert(r[b] == prev[b]);
                } else {
                    assert(r[b].0 == es[n].0);
                }
            }
        }
    }
}

/// Each key of `object_entries_table(es)` is a key of `es`; a document whose
/// keys are distinct gives a table whose keys are distinct, inner lists included.
pub proof fn lemma_object_entries_keys(es: Seq<(Seq<char>, Option<Seq<(Seq<char>, Option<Seq<char>>)>>)>)
    ensures
        forall|j: int| 0 <= j < object_entries_table(es).len() ==> exists|i: int|
            0 <= i < es.len() && es[i].0 == (#[trigger] object_entries_table(es)[j]).0,
        document_keys_distinct(Some(es)) ==> nested_keys_distinct(object_entries_table(es)),
    decreases es.len(),
{
    if es.len() > 0 {
        let d = es.drop_last();
        let prev = object_entries_table(d);
        lemma_object_entries_keys(d);
        let r = object_entries_table(es);
        let n = es.len() - 1;
        assert forall|j: int| 0 <= j < r.len() implies exists|i: int| 0 <= i < es.len() && es[i].0 == (
        #[trigger] r[j]).0 by {
            if j < prev.len() {
                assert(r[j] == prev[j]);
                let i = choose|i: int| 0 <= i < d.len() && d[i].0 == prev[j].0;
                assert(es[i] == d[i]);
            } else {
                assert(es[n].0 == r[j].0);
            }
        }
        if document_keys_distinct(Some(es)) {
            assert(document_keys_distinct(Some(d))) by {
                assert forall|x: int, y: int| #![trigger d[x], d[y]] 0 <= x < y < d.len() implies d[x].0
                    != d[y].0 by {
                    assert(d[x] == es[x] && d[y] == es[y]);
                }
                assert forall|x: int| 0 <= x < d.len() implies (#[trigger] d[x].1 matches Some(inner)
                    ==> keys_distinct(inner)) by {
                    assert(d[x] == es[x]);
                }
            }
            assert forall|a: int, b: int| #![trigger r[a], r[b]] 0 <= a < b < r.len() implies r[a].0
                != r[b].0 by {
                assert(r[a] == prev[a]);
                let i = choose|i: int| 0 <= i < d.len() && d[i].0 == prev[a].0;
                assert(es[i] == d[i]);
                if b < prev.len() {
                    assert(r[b] == prev[b]);
                } else {
                    assert(r[b].0 == es[n].0);
                }
            }
            assert forall|j: int| 0 <= j < r.len() implies keys_distinct(#[trigger] r[j].1) by {
                if j < prev.len() {
                    assert(r[j] == prev[j]);
                } else {
                    let inner = es[n].1->Some_0;
                    assert(es[n].1 matches Some(inner));
                    lemma_string_entries_keys(inner);
                }
            }
        }
    }
}

/// A document whose keys are distinct gives a two-level table whose keys are distinct.
pub proof fn lemma_nested_table_keys(doc: JsonDocumentView)
    requires
        document_keys_distinct(doc),
    ensures
        nested_keys_distinct(nested_table(doc)),
{
    if let Some(es) = doc {
        lemma_object_entries_keys(es);
    }
}

/// The string entries of one inner object.
pub fn string_entries_of(es: &Vec<(String, Option<String>)>) -> (r: Vec<(String, String)>)
    ensures
        r.deep_view() == string_entries(es.deep_view()),
{
    let ghost ev = es.deep_view();
    let mut r: Vec<(String, String)> = Vec::new();
    let mut i: usize = 0;
    while i < es.len()
        invariant
            i <= es.len(),
            ev == es.deep_view(),
            r.deep_view() == string_entries(ev.take(i as int)),
        decreases es.len() - i,
    {
        assert(ev.take(i + 1).drop_last() =~= ev.take(i as int));
        let (k, v) = &es[i];
        match v {
            Some(s) => {
                r.push((k.clone(), s.clone()));
                assert(r.deep_view() =~= string_entries(ev.take(i as int)).push((k@, s@)));
            },
            None => {},
        }
        i = i + 1;
    }
    assert(ev.take(es.len() as int) =~= ev);
    r
}

/// The two-level table of a document (see [`nested_table`]).
pub fn nested_table_of(doc: &JsonDocument) -> (r: Vec<(String, Vec<(String, String)>)>)
    ensures
        r.deep_view() == nested_table(doc.deep_view()),
{
    let mut r: Vec<(String, Vec<(String, String)>)> = Vec::new();
    match doc {
        None => {
            assert(r.deep_view() =~= Seq::<(Seq<char>, Seq<(Seq<char>, Seq<char>)>)>::empty());
        },
        Some(es) => {
            let ghost ev = es.deep_view();
            let mut i: usize = 0;
            while i < es.len()
                invariant
                    i <= es.len(),
                    ev == es.deep_view(),
                    r.deep_view() == object_entries_table(ev.take(i as int)),
                decreases es.len() - i,
            {
                assert(ev.take(i + 1).drop_last() =~= ev.take(i as int));
                let (k, v) = &es[i];
                match v {
                    Some(inner) => {
                        let t = string_entries_of(inner);
                        r.push((k.clone(), t));
                        assert(r.deep_view() =~= object_entries_table(ev.take(i as int)).push(
                            (k@, string_entries(inner.deep_view())),
                        ));
                    },
                    None => {},
                }
                i = i + 1;
            }
            assert(ev.take(es.len() as int) =~= ev);
        },
    }
    r
}

} // verus!
