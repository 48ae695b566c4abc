//! The structured result document.
//!
//! A serialized result log reaches the transcriber as a loosely typed
//! tree: nulls, booleans, numbers, strings, arrays and objects.  Numbers
//! are carried as their decimal numerals, so the tree holds exactly what
//! was written and the transcriber can reproduce it byte for byte.  A
//! missing key or a wrong variant is what the transcriber reports as
//! malformed result data.

use vstd::prelude::*;
use crate::text::str_eq;

verus! {

/// One keyed entry of a document object.
#[derive(Debug)]
pub struct JsonEntry {
    pub key: String,
    pub value: Json,
}

/// A loosely typed document tree.
#[derive(Debug)]
pub enum Json {
    Null,
    Bool(bool),
    /// A number, as its decimal numeral.
    Num(String),
    Str(String),
    Arr(Vec<Json>),
    /// An object: keyed entries in writing order.
    Obj(Vec<JsonEntry>),
}

/// The abstract contents of a document tree.
pub enum JsonView {
    Null,
    Bool(bool),
    Num(Seq<char>),
    Str(Seq<char>),
    Arr(Seq<JsonView>),
    Obj(Seq<(Seq<char>, JsonView)>),
}

/// The abstract contents of a document tree.
pub open spec fn json_view(j: Json) -> JsonView
    decreases j,
{
    match j {
        Json::Null => JsonView::Null,
        Json::Bool(b) => JsonView::Bool(b),
        Json::Num(s) => JsonView::Num(s@),
        Json::Str(s) => JsonView::Str(s@),
        Json::Arr(v) => JsonView::Arr(arr_views(v@)),
        Json::Obj(v) => JsonView::Obj(obj_views(v@)),
    }
}

/// The abstract contents of a sequence of trees.
pub open spec fn arr_views(v: Seq<Json>) -> Seq<JsonView>
    decreases v,
{
    if v.len() == 0 {
        Seq::empty()
    } else {
        arr_views(v.drop_last()).push(json_view(v.last()))
    }
}

/// The abstract contents of a sequence of object entries.
pub open spec fn obj_views(v: Seq<JsonEntry>) -> Seq<(Seq<char>, JsonView)>
    decreases v,
{
    if v.len() == 0 {
        Seq::empty()
    } else {
        obj_views(v.drop_last()).push((v.last().key@, json_view(v.last().value)))
    }
}

impl View for Json {
    type V = JsonView;

    open spec fn view(&self) -> JsonView {
        json_view(*self)
    }
}

/// `arr_views` maps the trees one by one.
pub proof fn lemma_arr_views_index(v: Seq<Json>, k: int)
    requires
        0 <= k < v.len(),
    ensures
        arr_views(v).len() == v.len(),
        arr_views(v)[k] == json_view(v[k]),
    decreases v.len(),
{
    lemma_arr_views_len(v);
    if k < v.len() - 1 {
        lemma_arr_views_index(v.drop_last(), k);
    }
}

/// `arr_views` keeps the length.
pub proof fn lemma_arr_views_len(v: Seq<Json>)
    ensures
        arr_views(v).len() == v.len(),
    decreases v.len(),
{
    if v.len() > 0 {
        lemma_arr_views_len(v.drop_last());
    }
}

/// `obj_views` maps the entries one by one.
pub proof fn lemma_obj_views_index(v: Seq<JsonEntry>, k: int)
    requires
        0 <= k < v.len(),
    ensures
        obj_views(v).len() == v.len(),
        obj_views(v)[k] == (v[k].key@, json_view(v[k].value)),
    decreases v.len(),
{
    lemma_obj_views_len(v);
    if k < v.len() - 1 {
        lemma_obj_views_index(v.drop_last(), k);
    }
}

/// `obj_views` keeps the length.
pub proof fn lemma_obj_views_len(v: Seq<JsonEntry>)
    ensures
        obj_views(v).len() == v.len(),
    decreases v.len(),
{
    if v.len() > 0 {
        lemma_obj_views_len(v.drop_last());
    }
}

/// The value under the first entry of `entries` whose key is `key`.
pub open spec fn spec_obj_get(entries: Seq<(Seq<char>, JsonView)>, key: Seq<char>)
    -> Option<JsonView>
    decreases entries.len(),
{
    if entries.len() == 0 {
        None
    } else if entries[0].0 == key {
        Some(entries[0].1)
    } else {
        spec_obj_get(entries.drop_first(), key)
    }
}

/// The value under key `key` when `v` is an object that has it.
pub open spec fn spec_get(v: JsonView, key: Seq<char>) -> Option<JsonView> {
    match v {
        JsonView::Obj(entries) => spec_obj_get(entries, key),
        _ => None,
    }
}

/// A lookup walks past a first entry whose key differs.
pub proof fn lemma_obj_get_step(entries: Seq<(Seq<char>, JsonView)>, key: Seq<char>)
    requires
        entries.len() > 0,
        entries[0].0 != key,
    ensures
        spec_obj_get(entries, key) == spec_obj_get(entries.drop_first(), key),
{
}

/// When the first `i` keys differ from `key` and entry `i` carries it,
/// the lookup finds entry `i`.
pub proof fn lemma_obj_get_found(entries: Seq<(Seq<char>, JsonView)>, key: Seq<char>, i: int)
    requires
        0 <= i < entries.len(),
        entries[i].0 == key,
        forall|q: int| 0 <= q < i ==> #[trigger] entries[q].0 != key,
    ensures
        spec_obj_get(entries, key) == Some(entries[i].1),
    decreases i,
{
    if i > 0 {
        lemma_obj_get_found(entries.drop_first(), key, i - 1);
    }
}

/// When no key of `entries` is `key`, the lookup finds nothing.
pub proof fn lemma_obj_get_absent(entries: Seq<(Seq<char>, JsonView)>, key: Seq<char>)
    requires
        forall|q: int| 0 <= q < entries.len() ==> #[trigger] entries[q].0 != key,
    ensures
        spec_obj_get(entries, key) is None,
    decreases entries.len(),
{
    if entries.len() > 0 {
        lemma_obj_get_absent(entries.drop_first(), key);
    }
}

impl Json {
    /// The value under key `key`, when `self` is an object that has it.
    pub fn get<'a>(&'a self, key: &str) -> (r: Option<&'a Json>)
        ensures
            match r {
                Some(v) => spec_get(self@, key@) == Some(v@),
                None => spec_get(self@, key@) is None,
            },
    {
        match self {
            Json::Obj(entries) => {
                let ghost all = obj_views(entries@);
                proof {
                    assert(self@ == JsonView::Obj(all));
                    lemma_obj_views_len(entries@);
                }
                let mut i: usize = 0;
                while i < entries.len()
                    invariant
                        i <= entries@.len(),
                        all == obj_views(entries@),
                        self@ == JsonView::Obj(all),
                        all.len() == entries@.len(),
                        forall|q: int| 0 <= q < i ==> #[trigger] all[q].0 != key@,
                    decreases entries@.len() - i,
                {
                    proof {
                        lemma_obj_views_index(entries@, i as int);
                    }
                    if str_eq(entries[i].key.as_str(), key) {
                        proof {
                            lemma_obj_get_found(all, key@, i as int);
                        }
                        return Some(&entries[i].value);
                    }
                    i += 1;
                }
                proof {
                    lemma_obj_get_absent(all, key@);
                }
                None
            },
            _ => None,
        }
    }
}

} // verus!
