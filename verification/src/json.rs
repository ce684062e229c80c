//! The self-describing structured tree that records encode into and decode
//! from, together with its mathematical mirror.
//!
//! `Json` is the executable tree: booleans, 64-bit integers, text, arrays and
//! open key/value mappings (kept as entry lists with order preserved). `JVal`
//! is its view: the same shape over `int`, `Seq<char>` and `Seq`.

use vstd::prelude::*;

verus! {

/// The mathematical mirror of a tree value.
pub enum JVal {
    Null,
    Bool(bool),
    Int(int),
    Str(Seq<char>),
    Arr(Seq<JVal>),
    Obj(Seq<(Seq<char>, JVal)>),
}

/// The executable tree value.
pub enum Json {
    Null,
    Bool(bool),
    Int(i64),
    Str(String),
    Arr(Vec<Json>),
    Obj(Vec<(String, Json)>),
}

pub open spec fn jview(j: Json) -> JVal
    decreases j,
{
    match j {
        Json::Null => JVal::Null,
        Json::Bool(b) => JVal::Bool(b),
        Json::Int(n) => JVal::Int(n as int),
        Json::Str(s) => JVal::Str(s@),
        Json::Arr(v) => JVal::Arr(
            Seq::new(
                v@.len(),
                |i: int|
                    if 0 <= i < v@.len() {
                        jview(v@[i])
                    } else {
                        JVal::Null
                    },
            ),
        ),
        Json::Obj(v) => JVal::Obj(
            Seq::new(
                v@.len(),
                |i: int|
                    if 0 <= i < v@.len() {
                        (v@[i].0@, jview(v@[i].1))
                    } else {
                        (Seq::<char>::empty(), JVal::Null)
                    },
            ),
        ),
    }
}

impl View for Json {
    type V = JVal;

    open spec fn view(&self) -> JVal {
        jview(*self)
    }
}

/// The view of an entry list: each key as its character sequence, each value
/// as its mirror.
pub open spec fn entries_view(es: Seq<(String, Json)>) -> Seq<(Seq<char>, JVal)> {
    Seq::new(es.len(), |i: int| (es[i].0@, jview(es[i].1)))
}

pub broadcast proof fn lemma_obj_view(v: Vec<(String, Json)>)
    ensures
        #[trigger] jview(Json::Obj(v)) == JVal::Obj(entries_view(v@)),
{
    assert(jview(Json::Obj(v))->Obj_0 =~= entries_view(v@));
}

/// The view of an array's elements.
pub open spec fn elems_view(es: Seq<Json>) -> Seq<JVal> {
    Seq::new(es.len(), |i: int| jview(es[i]))
}

pub broadcast proof fn lemma_arr_view(v: Vec<Json>)
    ensures
        #[trigger] jview(Json::Arr(v)) == JVal::Arr(elems_view(v@)),
{
    assert(jview(Json::Arr(v))->Arr_0 =~= elems_view(v@));
}

/// The value under the first entry with the given key, if any.
pub open spec fn first_val(es: Seq<(Seq<char>, JVal)>, key: Seq<char>) -> Option<JVal>
    decreases es.len(),
{
    if es.len() == 0 {
        None
    } else if es[0].0 == key {
        Some(es[0].1)
    } else {
        first_val(es.skip(1), key)
    }
}

/// Looking a key up in a concatenation: the left part wins.
pub broadcast proof fn lemma_first_val_append(
    a: Seq<(Seq<char>, JVal)>,
    b: Seq<(Seq<char>, JVal)>,
    key: Seq<char>,
)
    ensures
        #[trigger] first_val(a + b, key) == (match first_val(a, key) {
            Some(v) => Some(v),
            None => first_val(b, key),
        }),
    decreases a.len(),
{
    if a.len() == 0 {
        assert(a + b =~= b);
    } else {
        assert((a + b)[0] == a[0]);
        assert((a + b).skip(1) =~= a.skip(1) + b);
        lemma_first_val_append(a.skip(1), b, key);
    }
}

/// Text equality by content.
pub fn str_eqs(a: &str, b: &str) -> (r: bool)
    ensures
        r == (a@ == b@),
{
    let x: String = a.to_owned();
    let y: String = b.to_owned();
    x == y
}

/// Deep equality of trees: true exactly when the views coincide.
pub fn json_eq(a: &Json, b: &Json) -> (r: bool)
    ensures
        r == (a@ == b@),
    decreases *a,
{
    match (a, b) {
        (Json::Null, Json::Null) => true,
        (Json::Bool(x), Json::Bool(y)) => *x == *y,
        (Json::Int(x), Json::Int(y)) => *x == *y,
        (Json::Str(x), Json::Str(y)) => *x == *y,
        (Json::Arr(x), Json::Arr(y)) => {
            if x.len() != y.len() {
                assert(a@->Arr_0.len() != b@->Arr_0.len());
                return false;
            }
            let mut i: usize = 0;
            while i < x.len()
                invariant
                    i <= x.len(),
                    x.len() == y.len(),
                    *a == Json::Arr(*x),
                    *b == Json::Arr(*y),
                    forall|j: int| 0 <= j < i ==> jview(x@[j]) == jview(y@[j]),
                decreases x.len() - i,
            {
                if !json_eq(&x[i], &y[i]) {
                    assert(a@->Arr_0[i as int] != b@->Arr_0[i as int]);
                    return false;
                }
                i += 1;
            }
            assert(a@->Arr_0 =~= b@->Arr_0);
            true
        },
        (Json::Obj(x), Json::Obj(y)) => {
            if x.len() != y.len() {
                assert(a@->Obj_0.len() != b@->Obj_0.len());
                return false;
            }
            let mut i: usize = 0;
            while i < x.len()
                invariant
                    i <= x.len(),
                    x.len() == y.len(),
                    *a == Json::Obj(*x),
                    *b == Json::Obj(*y),
                    forall|j: int| 0 <= j < i ==> x@[j].0@ == y@[j].0@ && jview(x@[j].1)
                        == jview(y@[j].1),
                decreases x.len() - i,
            {
                let ke = str_eqs(x[i].0.as_str(), y[i].0.as_str());
                if !ke || !json_eq(&x[i].1, &y[i].1) {
                    assert(a@->Obj_0[i as int] != b@->Obj_0[i as int]);
                    return false;
                }
                i += 1;
            }
            assert(a@->Obj_0 =~= b@->Obj_0);
            true
        },
        _ => {
            assert(a@ != b@);
            false
        },
    }
}

impl PartialEq for Json {
    /// Equality of trees is equality of their views.
    fn eq(&self, other: &Json) -> (r: bool) {
        json_eq(self, other)
    }
}

impl vstd::std_specs::cmp::PartialEqSpecImpl for Json {
    open spec fn obeys_eq_spec() -> bool {
        true
    }

    open spec fn eq_spec(&self, other: &Json) -> bool {
        self@ == other@
    }
}

} // verus!
