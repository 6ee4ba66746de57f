//! The event payload: a JSON document of unconstrained shape.

use vstd::prelude::*;

verus! {

broadcast use vstd::std_specs::vec::group_vec_axioms;

/// A JSON value. Objects keep their entries in order; numbers keep the text
/// they were written with, as nothing here reads them.
#[derive(Debug, PartialEq)]
pub enum JsonValue {
    Null,
    Bool(bool),
    Number(String),
    Str(String),
    Array(Vec<JsonValue>),
    Object(Vec<(String, JsonValue)>),
}

/// The mathematical form of a JSON value.
pub enum Json {
    Null,
    Bool(bool),
    Number(Seq<char>),
    Str(Seq<char>),
    Array(Seq<Json>),
    Object(Seq<(Seq<char>, Json)>),
}

impl JsonValue {
    /// The value as mathematics sees it.
    pub open spec fn view(&self) -> Json
        decreases self,
    {
        match self {
            JsonValue::Null => Json::Null,
            JsonValue::Bool(b) => Json::Bool(*b),
            JsonValue::Number(n) => Json::Number(n@),
            JsonValue::Str(s) => Json::Str(s@),
            JsonValue::Array(a) => Json::Array(
                Seq::new(a@.len(), |i: int| if 0 <= i < a@.len() { a@[i].view() } else { Json::Null }),
            ),
            JsonValue::Object(m) => Json::Object(
                Seq::new(
                    m@.len(),
                    |i: int| if 0 <= i < m@.len() { (m@[i].0@, m@[i].1.view()) } else { (Seq::empty(), Json::Null) },
                ),
            ),
        }
    }
}

/// A copy of `v`.
pub fn deep_copy(v: &JsonValue) -> (r: JsonValue)
    ensures
        r@ == v@,
    decreases v,
{
    match v {
        JsonValue::Null => JsonValue::Null,
        JsonValue::Bool(b) => JsonValue::Bool(*b),
        JsonValue::Number(n) => JsonValue::Number(n.clone()),
        JsonValue::Str(s) => JsonValue::Str(s.clone()),
        JsonValue::Array(a) => {
            let mut out: Vec<JsonValue> = Vec::new();
            let mut i: usize = 0;
            while i < a.len()
                invariant
                    i <= a@.len(),
                    *v is Array,
                    v->Array_0 == *a,
                    out@.len() == i,
                    forall|k: int| 0 <= k < i ==> out@[k]@ == a@[k]@,
                decreases a.len() - i,
            {
                assert(decreases_to!(*v => *a));
                assert(decreases_to!(*a => a[i as int]));
                assert(decreases_to!(*v => a[i as int]));
                let c = deep_copy(&a[i]);
                out.push(c);
                i = i + 1;
            }
            let r = JsonValue::Array(out);
            assert(r@ == v@) by {
                if let (Json::Array(x), Json::Array(y)) = (r@, v@) {
                    assert(x =~= y);
                }
            }
            r
        },
        JsonValue::Object(m) => {
            let mut out: Vec<(String, JsonValue)> = Vec::new();
            let mut i: usize = 0;
            while i < m.len()
                invariant
                    i <= m@.len(),
                    *v is Object,
                    v->Object_0 == *m,
                    out@.len() == i,
                    forall|k: int| 0 <= k < i ==> out@[k].0@ == m@[k].0@ && out@[k].1@ == m@[k].1@,
                decreases m.len() - i,
            {
                assert(decreases_to!(*v => *m));
                assert(decreases_to!(*m => m[i as int]));
                assert(decreases_to!(m[i as int] => m[i as int].1));
                assert(decreases_to!(*v => m[i as int].1));
                let c = deep_copy(&m[i].1);
                out.push((m[i].0.clone(), c));
                i = i + 1;
            }
            let r = JsonValue::Object(out);
            assert(r@ == v@) by {
                if let (Json::Object(x), Json::Object(y)) = (r@, v@) {
                    assert(x =~= y);
                }
            }
            r
        },
    }
}

} // verus!
