//! JSON replies.
//!
//! `serde_json` reads the text; [`Json`] holds what came out of it as plain
//! values, which is what the rest of the library looks at.

use vstd::prelude::*;
use vstd::string::*;
use crate::text;

verus! {

/// `serde_json::Value`, a JSON document.
#[verifier::external_type_specification]
#[verifier::external_body]
pub struct ExValue(serde_json::Value);

/// A JSON document as a tree.  A number is known by its value as an unsigned
/// 64-bit integer, if it has one.  The members of an object stand in the order
/// in which `serde_json` walks them.
pub ghost enum Tree {
    Null,
    Bool(bool),
    Number(Option<u64>),
    Text(Seq<char>),
    Array(Seq<Tree>),
    Object(Seq<(Seq<char>, Tree)>),
}

/// What a `serde_json::Value` holds.
pub uninterp spec fn value_tree(v: serde_json::Value) -> Tree;

/// What `serde_json::from_str` makes of a text: the document, or the text of the
/// error.
pub uninterp spec fn parsed_json(text: Seq<char>) -> Result<Tree, Seq<char>>;

/// `serde_json::from_str` at type `Value`: the document that a text denotes, or
/// the text of the error.
#[verifier::external_body]
pub(crate) fn parse_value(text: &str) -> (r: Result<serde_json::Value, String>)
    ensures
        match r {
            Ok(v) => parsed_json(text@) == Ok::<Tree, Seq<char>>(value_tree(v)),
            Err(e) => parsed_json(text@) == Err::<Tree, Seq<char>>(e@),
        },
{
    serde_json::from_str(text).map_err(|e| e.to_string())
}

/// `serde_json::Value::Null`.
#[verifier::external_body]
pub(crate) fn null_value() -> (r: serde_json::Value)
    ensures
        value_tree(r) == Tree::Null,
{
    serde_json::Value::Null
}

/// The member `key` of an object; null where there is none, or no object.
pub open spec fn member(t: Tree, key: Seq<char>) -> Tree {
    match t {
        Tree::Object(members) => lookup(members, key),
        _ => Tree::Null,
    }
}

/// The value of the first member named `key`; null where there is none.
pub open spec fn lookup(members: Seq<(Seq<char>, Tree)>, key: Seq<char>) -> Tree
    decreases members.len(),
{
    if members.len() == 0 {
        Tree::Null
    } else if members[0].0 == key {
        members[0].1
    } else {
        lookup(members.skip(1), key)
    }
}

/// A copy of `v[key]`, by the `Index` operator of `serde_json::Value`: null where
/// `v` is no object or has no such member.
#[verifier::external_body]
pub(crate) fn member_value(v: &serde_json::Value, key: &str) -> (r: serde_json::Value)
    ensures
        value_tree(r) == member(value_tree(*v), key@),
{
    v[key].clone()
}

/// The outermost layer of a JSON document.
enum Layer<'a> {
    Null,
    Bool(bool),
    Number(Option<u64>),
    Text(&'a str),
    Array(&'a Vec<serde_json::Value>),
    Object(Vec<(&'a String, &'a serde_json::Value)>),
}

spec fn layer_tree(l: Layer<'_>) -> Tree {
    match l {
        Layer::Null => Tree::Null,
        Layer::Bool(b) => Tree::Bool(b),
        Layer::Number(n) => Tree::Number(n),
        Layer::Text(s) => Tree::Text(s@),
        Layer::Array(items) => Tree::Array(items@.map_values(|v: serde_json::Value| value_tree(v))),
        Layer::Object(members) => Tree::Object(
            members@.map_values(|m: (&String, &serde_json::Value)| (m.0@, value_tree(*m.1))),
        ),
    }
}

/// The variants of `serde_json::Value` told apart.  A number is taken by
/// `Number::as_u64`; the members of an object come in the order of its iterator.
#[verifier::external_body]
fn outermost<'a>(v: &'a serde_json::Value) -> (r: Layer<'a>)
    ensures
        layer_tree(r) == value_tree(*v),
{
    match v {
        serde_json::Value::Null => Layer::Null,
        serde_json::Value::Bool(b) => Layer::Bool(*b),
        serde_json::Value::Number(n) => Layer::Number(n.as_u64()),
        serde_json::Value::String(s) => Layer::Text(s),
        serde_json::Value::Array(items) => Layer::Array(items),
        serde_json::Value::Object(members) => Layer::Object(members.iter().collect()),
    }
}

/// A JSON document, as plain values.
#[derive(Debug)]
pub enum Json {
    Null,
    Bool(bool),
    /// A number, by its value as an unsigned 64-bit integer if it has one.
    Number(Option<u64>),
    Text(String),
    Array(Vec<Json>),
    Object(Vec<(String, Json)>),
}

impl Json {
    /// The document as a tree.
    pub open spec fn tree(self) -> Tree
        decreases self,
    {
        match self {
            Json::Null => Tree::Null,
            Json::Bool(b) => Tree::Bool(b),
            Json::Number(n) => Tree::Number(n),
            Json::Text(s) => Tree::Text(s@),
            Json::Array(items) => Tree::Array(trees(items@)),
            Json::Object(members) => Tree::Object(member_trees(members@)),
        }
    }
}

/// The documents as trees.
pub open spec fn trees(v: Seq<Json>) -> Seq<Tree>
    decreases v,
{
    if v.len() == 0 {
        seq![]
    } else {
        trees(v.subrange(0, v.len() - 1)).push(v[v.len() - 1].tree())
    }
}

/// The members as trees.
pub open spec fn member_trees(v: Seq<(String, Json)>) -> Seq<(Seq<char>, Tree)>
    decreases v,
{
    if v.len() == 0 {
        seq![]
    } else {
        member_trees(v.subrange(0, v.len() - 1)).push((v[v.len() - 1].0@, v[v.len() - 1].1.tree()))
    }
}

pub proof fn lemma_trees(v: Seq<Json>)
    ensures
        trees(v).len() == v.len(),
        forall|i: int| 0 <= i < v.len() ==> #[trigger] trees(v)[i] == v[i].tree(),
    decreases v.len(),
{
    if v.len() > 0 {
        lemma_trees(v.subrange(0, v.len() - 1));
    }
}

pub proof fn lemma_member_trees(v: Seq<(String, Json)>)
    ensures
        member_trees(v).len() == v.len(),
        forall|i: int| 0 <= i < v.len() ==> #[trigger] member_trees(v)[i] == (v[i].0@, v[i].1.tree()),
    decreases v.len(),
{
    if v.len() > 0 {
        lemma_member_trees(v.subrange(0, v.len() - 1));
    }
}

impl Json {
    /// The document that a `serde_json::Value` holds.
    pub fn from_value(v: &serde_json::Value) -> (r: Json)
        ensures
            r.tree() == value_tree(*v),
        decreases value_tree(*v),
    {
        match outermost(v) {
            Layer::Null => Json::Null,
            Layer::Bool(b) => Json::Bool(b),
            Layer::Number(n) => Json::Number(n),
            Layer::Text(s) => Json::Text(s.to_string()),
            Layer::Array(items) => {
                let ghost expected = items@.map_values(|v: serde_json::Value| value_tree(v));
                let mut out: Vec<Json> = Vec::new();
                let mut i: usize = 0;
                assert(trees(out@) =~= expected.take(0));
                while i < items.len()
                    invariant
                        i <= items@.len(),
                        expected == items@.map_values(|v: serde_json::Value| value_tree(v)),
                        value_tree(*v) == Tree::Array(expected),
                        trees(out@) == expected.take(i as int),
                    decreases items@.len() - i,
                {
                    let ghost before = out@;
                    assert(expected[i as int] == value_tree(items@[i as int]));
                    assert(decreases_to!(value_tree(*v) => value_tree(*v)->Array_0));
                    assert(decreases_to!(expected => expected[i as int]));
                    out.push(Json::from_value(&items[i]));
                    assert(out@.subrange(0, out@.len() - 1) =~= before);
                    assert(expected.take(i as int).push(expected[i as int]) =~= expected.take(i + 1));
                    i += 1;
                }
                assert(expected.take(expected.len() as int) =~= expected);
                Json::Array(out)
            },
            Layer::Object(members) => {
                let ghost expected = members@.map_values(
                    |m: (&String, &serde_json::Value)| (m.0@, value_tree(*m.1)),
                );
                let mut out: Vec<(String, Json)> = Vec::new();
                let mut i: usize = 0;
                assert(member_trees(out@) =~= expected.take(0));
                while i < members.len()
                    invariant
                        i <= members@.len(),
                        expected == members@.map_values(
                            |m: (&String, &serde_json::Value)| (m.0@, value_tree(*m.1)),
                        ),
                        value_tree(*v) == Tree::Object(expected),
                        member_trees(out@) == expected.take(i as int),
                    decreases members@.len() - i,
                {
                    let ghost before = out@;
                    assert(expected[i as int] == (members@[i as int].0@, value_tree(*members@[i as int].1)));
                    assert(decreases_to!(value_tree(*v) => value_tree(*v)->Object_0));
                    assert(decreases_to!(expected => expected[i as int]));
                    assert(decreases_to!(expected[i as int] => expected[i as int].1));
                    out.push((members[i].0.clone(), Json::from_value(members[i].1)));
                    assert(out@.subrange(0, out@.len() - 1) =~= before);
                    assert(expected.take(i as int).push(expected[i as int]) =~= expected.take(i + 1));
                    i += 1;
                }
                assert(expected.take(expected.len() as int) =~= expected);
                Json::Object(out)
            },
        }
    }

    /// The member `key`, if this is an object that has one.
    pub fn get(&self, key: &str) -> (r: Option<&Json>)
        ensures
            match r {
                Some(j) => j.tree() == member(self.tree(), key@),
                None => member(self.tree(), key@) == Tree::Null,
            },
    {
        match self {
            Json::Object(members) => {
                let ghost all = member_trees(members@);
                proof {
                    lemma_member_trees(members@);
                }
                let mut i: usize = 0;
                assert(all.skip(0) =~= all);
                while i < members.len()
                    invariant
                        i <= members@.len(),
                        all == member_trees(members@),
                        all.len() == members@.len(),
                        forall|j: int|
                            0 <= j < members@.len() ==> #[trigger] all[j] == (
                                members@[j].0@,
                                members@[j].1.tree(),
                            ),
                        self.tree() == Tree::Object(all),
                        lookup(all, key@) == lookup(all.skip(i as int), key@),
                    decreases members@.len() - i,
                {
                    assert(all.skip(i as int)[0] == all[i as int]);
                    if text::str_eq(members[i].0.as_str(), key) {
                        return Some(&members[i].1);
                    }
                    assert(all.skip(i as int).skip(1) =~= all.skip(i + 1));
                    i += 1;
                }
                None
            },
            _ => None,
        }
    }

    /// The text that this is, if it is one.
    pub fn as_str(&self) -> (r: Option<&str>)
        ensures
            text::opt_ref(r) == text_of(self.tree()),
    {
        match self {
            Json::Text(s) => Some(s.as_str()),
            _ => None,
        }
    }

    /// The text of the member `key`, if there is one.
    pub fn text_at(&self, key: &str) -> (r: Option<&str>)
        ensures
            text::opt_ref(r) == text_of(member(self.tree(), key@)),
    {
        match self.get(key) {
            Some(j) => j.as_str(),
            None => None,
        }
    }

    /// The unsigned integer of the member `key`, if there is one.
    pub fn number_at(&self, key: &str) -> (r: Option<u64>)
        ensures
            r == number_of(member(self.tree(), key@)),
    {
        match self.get(key) {
            Some(Json::Number(n)) => *n,
            _ => None,
        }
    }
}

/// The text that a document is, if it is one.
pub open spec fn text_of(t: Tree) -> Option<Seq<char>> {
    match t {
        Tree::Text(s) => Some(s),
        _ => None,
    }
}

/// The unsigned integer that a document is, if it is one.
pub open spec fn number_of(t: Tree) -> Option<u64> {
    match t {
        Tree::Number(n) => n,
        _ => None,
    }
}

} // verus!
