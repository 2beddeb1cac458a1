//! The library's own JSON document tree.
//!
//! Payloads arrive as JSON text; the edge of the system parses them into this
//! tree (object members in the order the parser yields them) so that the
//! scanners and gateways here can inspect them.

use vstd::prelude::*;
use crate::ordering::chars_lt;

verus! {

/// A JSON value. Numbers keep their textual form. `Object` stands for a
/// `serde_json::Map`: its members in the map's iteration order, with the
/// map's invariant that names are distinct and ascending (see [`json_wf`]).
#[derive(Debug)]
pub enum JsonValue {
    Null,
    Bool(bool),
    Number(String),
    String(String),
    Array(Vec<JsonValue>),
    Object(Vec<(String, JsonValue)>),
}

/// A JSON value as the contracts read it.
#[verifier::ext_equal]
pub enum JsonTree {
    Null,
    Bool(bool),
    Number(Seq<char>),
    Text(Seq<char>),
    Array(Seq<JsonTree>),
    Object(Seq<(Seq<char>, JsonTree)>),
}

/// The tree that a value holds.
pub open spec fn tree(v: JsonValue) -> JsonTree
    decreases v,
{
    match v {
        JsonValue::Null => JsonTree::Null,
        JsonValue::Bool(b) => JsonTree::Bool(b),
        JsonValue::Number(n) => JsonTree::Number(n@),
        JsonValue::String(s) => JsonTree::Text(s@),
        JsonValue::Array(a) => JsonTree::Array(Seq::new(a@.len(), |i: int| if 0 <= i < a@.len() { tree(a[i]) } else { JsonTree::Null })),
        JsonValue::Object(o) => JsonTree::Object(Seq::new(o@.len(), |i: int| if 0 <= i < o@.len() { (o[i].0@, tree(o[i].1)) } else { (Seq::empty(), JsonTree::Null) })),
    }
}

/// The member names of an object are in strictly ascending order (by code
/// point, which is the byte order of their UTF-8 text), so no name occurs
/// twice.
pub open spec fn names_ascending(members: Seq<(Seq<char>, JsonTree)>) -> bool {
    forall|i: int, j: int| 0 <= i < j < members.len() ==> chars_lt(#[trigger] members[i].0, #[trigger] members[j].0)
}

/// The invariant of a JSON tree, the one `serde_json::Map` keeps (a sorted
/// map unless serde_json's `preserve_order` feature is on, and nothing here
/// turns it on): in every object, at any depth, member names are distinct
/// and listed in ascending order, the order in which the map yields them.
pub open spec fn json_wf(t: JsonTree) -> bool
    decreases t,
{
    match t {
        JsonTree::Array(items) => forall|i: int| 0 <= i < items.len() ==> #[trigger] json_wf(items[i]),
        JsonTree::Object(members) => names_ascending(members)
            && forall|i: int| 0 <= i < members.len() ==> #[trigger] json_wf(members[i].1),
        _ => true,
    }
}

fn copy_items(a: &Vec<JsonValue>) -> (r: Vec<JsonValue>)
    ensures
        r@.len() == a@.len(),
        forall|i: int| 0 <= i < a@.len() ==> #[trigger] tree(r@[i]) == tree(a@[i]),
    decreases *a, 1int,
{
    let mut out: Vec<JsonValue> = Vec::new();
    let mut i: usize = 0;
    while i < a.len()
        invariant
            i <= a@.len(),
            out@.len() == i,
            forall|j: int| 0 <= j < i ==> #[trigger] tree(out@[j]) == tree(a@[j]),
        decreases a@.len() - i,
    {
        proof {
            assert(decreases_to!(*a => a[i as int]));
        }
        let x = a[i].deep_copy();
        let ghost before = out@;
        out.push(x);
        assert forall|j: int| 0 <= j < i + 1 implies #[trigger] tree(out@[j]) == tree(a@[j]) by {
            if j < i {
                assert(out@[j] == before[j]);
            }
        }
        i = i + 1;
    }
    out
}

fn copy_members(o: &Vec<(String, JsonValue)>) -> (r: Vec<(String, JsonValue)>)
    ensures
        r@.len() == o@.len(),
        forall|i: int| #![trigger r@[i]] 0 <= i < o@.len() ==> r@[i].0@ == o@[i].0@ && tree(r@[i].1) == tree(o@[i].1),
    decreases *o, 1int,
{
    let mut out: Vec<(String, JsonValue)> = Vec::new();
    let mut i: usize = 0;
    while i < o.len()
        invariant
            i <= o@.len(),
            out@.len() == i,
            forall|j: int| #![trigger out@[j]] 0 <= j < i ==> out@[j].0@ == o@[j].0@ && tree(out@[j].1) == tree(o@[j].1),
        decreases o@.len() - i,
    {
        proof {
            assert(decreases_to!(*o => o[i as int]));
            assert(decreases_to!(o[i as int] => o[i as int].1));
        }
        let k = o[i].0.clone();
        let x = o[i].1.deep_copy();
        let ghost before = out@;
        out.push((k, x));
        assert forall|j: int| #![trigger out@[j]] 0 <= j < i + 1 implies out@[j].0@ == o@[j].0@ && tree(out@[j].1) == tree(o@[j].1) by {
            if j < i {
                assert(out@[j] == before[j]);
            }
        }
        i = i + 1;
    }
    out
}

impl JsonValue {
    /// A deep copy of the tree (so the copy keeps [`json_wf`] where the
    /// original has it).
    pub fn deep_copy(&self) -> (r: JsonValue)
        ensures
            tree(r) == tree(*self),
            json_wf(tree(*self)) ==> json_wf(tree(r)),
        decreases *self, 0int,
    {
        match self {
            JsonValue::Null => JsonValue::Null,
            JsonValue::Bool(b) => JsonValue::Bool(*b),
            JsonValue::Number(n) => JsonValue::Number(n.clone()),
            JsonValue::String(s) => JsonValue::String(s.clone()),
            JsonValue::Array(a) => {
                let c = copy_items(a);
                proof {
                    let t1 = tree(JsonValue::Array(c));
                    let t2 = tree(JsonValue::Array(*a));
                    assert forall|i: int| 0 <= i < a@.len() implies t1->Array_0[i] == t2->Array_0[i] by {
                        assert(tree(c@[i]) == tree(a@[i]));
                    }
                    assert(t1->Array_0 =~= t2->Array_0);
                }
                JsonValue::Array(c)
            },
            JsonValue::Object(o) => {
                let c = copy_members(o);
                proof {
                    let t1 = tree(JsonValue::Object(c));
                    let t2 = tree(JsonValue::Object(*o));
                    assert forall|i: int| 0 <= i < o@.len() implies t1->Object_0[i] == t2->Object_0[i] by {
                        assert(c@[i].0@ == o@[i].0@ && tree(c@[i].1) == tree(o@[i].1));
                    }
                    assert(t1->Object_0 =~= t2->Object_0);
                }
                JsonValue::Object(c)
            },
        }
    }
}

impl Clone for JsonValue {
    fn clone(&self) -> (r: Self)
        ensures
            tree(r) == tree(*self),
    {
        self.deep_copy()
    }
}

} // verus!
