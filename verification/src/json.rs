//! The library's own JSON tree, and the dotted-path lookup over it.
//!
//! Parsing text into the tree is the one trusted step, done by
//! `serde_json`; numbers are carried as their decimal text, so that the
//! tree holds plain values only. Everything that walks the tree is
//! verified against its mathematical view.

use vstd::prelude::*;

use crate::text::{find_char, first_index_of, lemma_first_index_of, str_eq};

verus! {

/// Mathematical view of [`Json`].
pub ghost enum JsonView {
    Null,
    Bool(bool),
    /// A number, as its decimal text.
    Num(Seq<char>),
    Str(Seq<char>),
    Arr(Seq<JsonView>),
    Obj(Seq<(Seq<char>, JsonView)>),
}

/// A JSON document. Numbers keep their decimal text; an object holds its
/// members in a fixed order with distinct keys, as the parser hands them
/// over.
pub enum Json {
    Null,
    Bool(bool),
    Num(String),
    Str(String),
    Arr(Vec<Json>),
    Obj(Vec<(String, Json)>),
}

/// The view of a JSON value.
pub open spec fn view_json(j: Json) -> JsonView
    decreases j,
{
    match j {
        Json::Null => JsonView::Null,
        Json::Bool(b) => JsonView::Bool(b),
        Json::Num(s) => JsonView::Num(s@),
        Json::Str(s) => JsonView::Str(s@),
        Json::Arr(items) => JsonView::Arr(view_json_seq(items@)),
        Json::Obj(members) => JsonView::Obj(view_member_seq(members@)),
    }
}

/// The views of an array's elements.
pub open spec fn view_json_seq(s: Seq<Json>) -> Seq<JsonView>
    decreases s,
{
    if s.len() == 0 {
        Seq::empty()
    } else {
        view_json_seq(s.drop_last()).push(view_json(s.last()))
    }
}

/// The views of an object's members.
pub open spec fn view_member_seq(s: Seq<(String, Json)>) -> Seq<(Seq<char>, JsonView)>
    decreases s,
{
    if s.len() == 0 {
        Seq::empty()
    } else {
        view_member_seq(s.drop_last()).push((s.last().0@, view_json(s.last().1)))
    }
}

impl View for Json {
    type V = JsonView;

    open spec fn view(&self) -> JsonView {
        view_json(*self)
    }
}

pub proof fn lemma_view_json_seq_index(s: Seq<Json>)
    ensures
        view_json_seq(s).len() == s.len(),
        forall|i: int| 0 <= i < s.len() ==> #[trigger] view_json_seq(s)[i] == view_json(s[i]),
    decreases s.len(),
{
    if s.len() > 0 {
        lemma_view_json_seq_index(s.drop_last());
    }
}

pub proof fn lemma_view_member_seq_index(s: Seq<(String, Json)>)
    ensures
        view_member_seq(s).len() == s.len(),
        forall|i: int|
            0 <= i < s.len() ==> #[trigger] view_member_seq(s)[i] == (
                s[i].0@,
                view_json(s[i].1),
            ),
    decreases s.len(),
{
    if s.len() > 0 {
        lemma_view_member_seq_index(s.drop_last());
    }
}

/// The value under `key` among an object's members: that of the first
/// member whose key matches.
pub open spec fn obj_get(members: Seq<(Seq<char>, JsonView)>, key: Seq<char>) -> Option<JsonView>
    decreases members.len(),
{
    if members.len() == 0 {
        None
    } else if members[0].0 == key {
        Some(members[0].1)
    } else {
        obj_get(members.drop_first(), key)
    }
}

/// Dotted-path lookup: descend through nested objects along the `.`
/// separated keys of `path`.
pub open spec fn dot_lookup(t: JsonView, path: Seq<char>) -> Option<JsonView>
    decreases path.len(),
{
    match t {
        JsonView::Obj(members) => match first_index_of(path, '.') {
            None => obj_get(members, path),
            Some(d) => if 0 <= d < path.len() {
                match obj_get(members, path.subrange(0, d)) {
                    None => None,
                    Some(child) => dot_lookup(child, path.subrange(d + 1, path.len() as int)),
                }
            } else {
                None
            },
        },
        _ => None,
    }
}

proof fn lemma_obj_get_skip(members: Seq<(Seq<char>, JsonView)>, key: Seq<char>, i: int)
    requires
        0 <= i <= members.len(),
        forall|j: int| 0 <= j < i ==> (#[trigger] members[j]).0 != key,
    ensures
        obj_get(members, key) == obj_get(members.skip(i), key),
    decreases i,
{
    if i > 0 {
        assert(members[0].0 != key);
        assert(forall|j: int|
            0 <= j < i - 1 ==> (#[trigger] members.drop_first()[j]) == members[j + 1]);
        lemma_obj_get_skip(members.drop_first(), key, i - 1);
        assert(members.drop_first().skip(i - 1) =~= members.skip(i));
    } else {
        assert(members.skip(0) =~= members);
    }
}

/// Find the member of `members` under `key`.
pub(crate) fn obj_field<'a>(members: &'a Vec<(String, Json)>, key: &str) -> (r: Option<&'a Json>)
    ensures
        match r {
            None => obj_get(view_member_seq(members@), key@) is None,
            Some(x) => obj_get(view_member_seq(members@), key@) == Some(x@),
        },
{
    let ghost vm = view_member_seq(members@);
    proof {
        lemma_view_member_seq_index(members@);
    }
    let mut i: usize = 0;
    while i < members.len()
        invariant
            0 <= i <= members.len(),
            vm == view_member_seq(members@),
            vm.len() == members.len(),
            forall|j: int| 0 <= j < members@.len() ==> #[trigger] vm[j] == (
                members@[j].0@,
                view_json(members@[j].1),
            ),
            forall|j: int| 0 <= j < i ==> (#[trigger] vm[j]).0 != key@,
        decreases members.len() - i,
    {
        if str_eq(members[i].0.as_str(), key) {
            proof {
                lemma_obj_get_skip(vm, key@, i as int);
                assert(vm.skip(i as int)[0] == vm[i as int]);
                assert(vm.skip(i as int).len() > 0);
            }
            return Some(&members[i].1);
        }
        i = i + 1;
    }
    proof {
        lemma_obj_get_skip(vm, key@, vm.len() as int);
        assert(vm.skip(vm.len() as int) =~= Seq::<(Seq<char>, JsonView)>::empty());
    }
    None
}

/// Dotted-path lookup over a document.
pub fn dot_get<'a>(t: &'a Json, path: &str) -> (r: Option<&'a Json>)
    ensures
        match r {
            None => dot_lookup(t@, path@) is None,
            Some(x) => dot_lookup(t@, path@) == Some(x@),
        },
    decreases path@.len(),
{
    let members = match t {
        Json::Obj(members) => members,
        _ => {
            return None;
        },
    };
    let n = path.unicode_len();
    match find_char(path, '.') {
        None => obj_field(members, path),
        Some(d) => {
            proof {
                lemma_first_index_of(path@, '.');
            }
            let key = path.substring_char(0, d);
            match obj_field(members, key) {
                None => None,
                Some(child) => dot_get(child, path.substring_char(d + 1, n)),
            }
        },
    }
}

/// Whether text is a JSON document that the parser accepts.
pub uninterp spec fn json_text_wf(s: Seq<char>) -> bool;

/// The tree that a well-formed document denotes.
pub uninterp spec fn json_tree_of(s: Seq<char>) -> JsonView;

/// Relies on `serde_json::from_str::<Value>`: a tree comes back exactly
/// when the text is a JSON document it accepts, and which tree is a
/// function of the text alone (numbers render deterministically, and
/// object members come out keyed uniquely, in sorted order).
#[verifier::external_body]
pub(crate) fn parse_json(s: &str) -> (r: Option<Json>)
    ensures
        r is Some <==> json_text_wf(s@),
        r matches Some(t) ==> t@ == json_tree_of(s@),
{
    serde_json::from_str::<serde_json::Value>(s).ok().map(value_to_json)
}

#[verifier::external_type_specification]
#[verifier::external_body]
pub struct ExValue(serde_json::Value);

/// The one-for-one conversion behind `parse_json`: each `serde_json` node
/// becomes the matching [`Json`] node, a number as its decimal text.
#[verifier::external_body]
fn value_to_json(v: serde_json::Value) -> Json {
    match v {
        serde_json::Value::Null => Json::Null,
        serde_json::Value::Bool(b) => Json::Bool(b),
        serde_json::Value::Number(n) => Json::Num(n.to_string()),
        serde_json::Value::String(s) => Json::Str(s),
        serde_json::Value::Array(a) => Json::Arr(a.into_iter().map(value_to_json).collect()),
        serde_json::Value::Object(o) => Json::Obj(
            o.into_iter().map(|(k, x)| (k, value_to_json(x))).collect(),
        ),
    }
}

} // verus!
