//! A JSON value tree as the protocol messages carry it, with the lookups
//! that the confirmation rules read. Numbers keep their JSON text; objects
//! keep their members in order, each key once.
use vstd::prelude::*;
use crate::text::str_eq;

verus! {

#[derive(Debug, PartialEq)]
pub enum Json {
    Null,
    Bool(bool),
    /// A number, as its JSON text.
    Number(String),
    Str(String),
    Array(Vec<Json>),
    Object(Vec<(String, Json)>),
}

/// Plain-value model of a [`Json`] value.
pub enum JsonView {
    Null,
    Bool(bool),
    Number(Seq<char>),
    Str(Seq<char>),
    Array(Seq<JsonView>),
    Object(Seq<(Seq<char>, JsonView)>),
}

pub open spec fn json_view(j: Json) -> JsonView
    decreases j,
{
    match j {
        Json::Null => JsonView::Null,
        Json::Bool(b) => JsonView::Bool(b),
        Json::Number(n) => JsonView::Number(n@),
        Json::Str(s) => JsonView::Str(s@),
        Json::Array(v) => JsonView::Array(
            Seq::new(
                v@.len(),
                |i: int|
                    if 0 <= i < v@.len() {
                        json_view(v@[i])
                    } else {
                        JsonView::Null
                    },
            ),
        ),
        Json::Object(m) => JsonView::Object(
            Seq::new(
                m@.len(),
                |i: int|
                    if 0 <= i < m@.len() {
                        (m@[i].0@, json_view(m@[i].1))
                    } else {
                        (seq![], JsonView::Null)
                    },
            ),
        ),
    }
}

impl View for Json {
    type V = JsonView;

    open spec fn view(&self) -> JsonView {
        json_view(*self)
    }
}

/// The value of the first member called `key` among `members`.
pub open spec fn lookup(members: Seq<(Seq<char>, JsonView)>, key: Seq<char>) -> Option<JsonView>
    decreases members.len(),
{
    if members.len() == 0 {
        None
    } else if members[0].0 == key {
        Some(members[0].1)
    } else {
        lookup(members.drop_first(), key)
    }
}

/// The member `key` of an object; `None` for other values or a missing key.
pub open spec fn member(j: JsonView, key: Seq<char>) -> Option<JsonView> {
    match j {
        JsonView::Object(members) => lookup(members, key),
        _ => None,
    }
}

/// Indexing by key: the member, or null when there is none.
pub open spec fn at(j: JsonView, key: Seq<char>) -> JsonView {
    match member(j, key) {
        Some(v) => v,
        None => JsonView::Null,
    }
}

/// The string content of a string value.
pub open spec fn as_text(j: JsonView) -> Option<Seq<char>> {
    match j {
        JsonView::Str(s) => Some(s),
        _ => None,
    }
}

/// The string content of a non-empty string value.
pub open spec fn nonempty_text(j: JsonView) -> Option<Seq<char>> {
    match j {
        JsonView::Str(s) => if s.len() > 0 {
            Some(s)
        } else {
            None
        },
        _ => None,
    }
}

/// The elements of an array value.
pub open spec fn elements(j: JsonView) -> Option<Seq<JsonView>> {
    match j {
        JsonView::Array(v) => Some(v),
        _ => None,
    }
}

/// An object with the given members.
pub open spec fn object(members: Seq<(Seq<char>, JsonView)>) -> JsonView {
    JsonView::Object(members)
}

/// The member `key` of `j`, if `j` is an object that has one.
#[verifier::loop_isolation(false)]
pub fn get<'a>(j: &'a Json, key: &str) -> (r: Option<&'a Json>)
    ensures
        match r {
            Some(v) => member(j@, key@) == Some(v@),
            None => member(j@, key@) is None,
        },
{
    match j {
        Json::Object(members) => {
            let ghost mv = match j@ {
                JsonView::Object(m) => m,
                _ => seq![],
            };
            assert(mv.len() == members@.len());
            let n = members.len();
            let mut i: usize = 0;
            assert(mv.skip(0) =~= mv);
            while i < n
                invariant
                    n == members@.len(),
                    i <= n,
                    lookup(mv, key@) == lookup(mv.skip(i as int), key@),
                decreases n - i,
            {
                assert(mv.skip(i as int).drop_first() =~= mv.skip(i + 1));
                assert(mv.skip(i as int)[0] == mv[i as int]);
                assert(mv[i as int] == (members@[i as int].0@, members@[i as int].1@));
                if str_eq(members[i].0.as_str(), key) {
                    return Some(&members[i].1);
                }
                i = i + 1;
            }
            None
        },
        _ => None,
    }
}

/// The string content of `j`, when it is a string.
pub fn text_of(j: &Json) -> (r: Option<&str>)
    ensures
        match r {
            Some(s) => as_text(j@) == Some(s@),
            None => as_text(j@) is None,
        },
{
    match j {
        Json::Str(s) => Some(s.as_str()),
        _ => None,
    }
}

/// The string content of `j`, when it is a non-empty string; `None` for a
/// missing value.
pub fn nonempty_text_of(j: Option<&Json>) -> (r: Option<String>)
    ensures
        match j {
            Some(v) => match r {
                Some(s) => nonempty_text(v@) == Some(s@),
                None => nonempty_text(v@) is None,
            },
            None => r is None,
        },
{
    match j {
        Some(Json::Str(s)) => if s.unicode_len() > 0 {
            Some(s.clone())
        } else {
            None
        },
        _ => None,
    }
}

/// A copy of `j`.
#[verifier::loop_isolation(false)]
pub fn copy(j: &Json) -> (r: Json)
    ensures
        r@ == j@,
    decreases j,
{
    match j {
        Json::Null => Json::Null,
        Json::Bool(b) => Json::Bool(*b),
        Json::Number(n) => Json::Number(n.clone()),
        Json::Str(s) => Json::Str(s.clone()),
        Json::Array(v) => {
            let mut out: Vec<Json> = Vec::new();
            let n = v.len();
            let mut i: usize = 0;
            while i < n
                invariant
                    n == v@.len(),
                    i <= n,
                    out@.len() == i,
                    forall|k: int| 0 <= k < i ==> #[trigger] out@[k]@ == v@[k]@,
                decreases n - i,
            {
                assert(decreases_to!(*j => *v));
                assert(decreases_to!(*v => v@));
                assert(decreases_to!(v@ => v@[i as int]));
                out.push(copy(&v[i]));
                i = i + 1;
            }
            let r = Json::Array(out);
            proof {
                match (r@, j@) {
                    (JsonView::Array(a), JsonView::Array(b)) => {
                        assert forall|k: int| 0 <= k < a.len() implies a[k] == b[k] by {
                            assert(out@[k]@ == v@[k]@);
                        }
                        assert(a =~= b);
                    },
                    _ => {
                        assert(false);
                    },
                }
            }
            r
        },
        Json::Object(members) => {
            let mut out: Vec<(String, Json)> = Vec::new();
            let n = members.len();
            let mut i: usize = 0;
            while i < n
                invariant
                    n == members@.len(),
                    i <= n,
                    out@.len() == i,
                    forall|k: int|
                        0 <= k < i ==> #[trigger] out@[k].0@ == members@[k].0@ && out@[k].1@
                            == members@[k].1@,
                decreases n - i,
            {
                assert(decreases_to!(*j => *members));
                assert(decreases_to!(*members => members@));
                assert(decreases_to!(members@ => members@[i as int]));
                assert(decreases_to!(members@[i as int] => members@[i as int].1));
                let value = copy(&members[i].1);
                out.push((members[i].0.clone(), value));
                i = i + 1;
            }
            let r = Json::Object(out);
            assert(match (r@, j@) {
                (JsonView::Object(a), JsonView::Object(b)) => a =~= b,
                _ => false,
            });
            r
        },
    }
}

/// Whether two values are equal, member by member and item by item (as
/// `==` compares `serde_json::Value`s).
#[verifier::loop_isolation(false)]
pub fn equal(a: &Json, b: &Json) -> (r: bool)
    ensures
        r == (a@ == b@),
    decreases a,
{
    match (a, b) {
        (Json::Null, Json::Null) => true,
        (Json::Bool(x), Json::Bool(y)) => *x == *y,
        (Json::Number(x), Json::Number(y)) => str_eq(x.as_str(), y.as_str()),
        (Json::Str(x), Json::Str(y)) => str_eq(x.as_str(), y.as_str()),
        (Json::Array(x), Json::Array(y)) => {
            let ghost xs = match a@ {
                JsonView::Array(s) => s,
                _ => seq![],
            };
            let ghost ys = match b@ {
                JsonView::Array(s) => s,
                _ => seq![],
            };
            if x.len() != y.len() {
                assert(xs.len() != ys.len());
                return false;
            }
            let n = x.len();
            let mut i: usize = 0;
            while i < n
                invariant
                    n == x@.len(),
                    n == y@.len(),
                    i <= n,
                    forall|k: int| 0 <= k < i ==> #[trigger] xs[k] == ys[k],
                decreases n - i,
            {
                assert(decreases_to!(*a => *x));
                assert(decreases_to!(*x => x@));
                assert(decreases_to!(x@ => x@[i as int]));
                if !equal(&x[i], &y[i]) {
                    assert(xs[i as int] != ys[i as int]);
                    return false;
                }
                i = i + 1;
            }
            assert(xs =~= ys);
            true
        },
        (Json::Object(x), Json::Object(y)) => {
            let ghost xs = match a@ {
                JsonView::Object(s) => s,
                _ => seq![],
            };
            let ghost ys = match b@ {
                JsonView::Object(s) => s,
                _ => seq![],
            };
            if x.len() != y.len() {
                assert(xs.len() != ys.len());
                return false;
            }
            let n = x.len();
            let mut i: usize = 0;
            while i < n
                invariant
                    n == x@.len(),
                    n == y@.len(),
                    i <= n,
                    forall|k: int| 0 <= k < i ==> #[trigger] xs[k] == ys[k],
                decreases n - i,
            {
                assert(decreases_to!(*a => *x));
                assert(decreases_to!(*x => x@));
                assert(decreases_to!(x@ => x@[i as int]));
                assert(decreases_to!(x@[i as int] => x@[i as int].1));
                if !str_eq(x[i].0.as_str(), y[i].0.as_str()) {
                    assert(xs[i as int].0 != ys[i as int].0);
                    return false;
                }
                if !equal(&x[i].1, &y[i].1) {
                    assert(xs[i as int].1 != ys[i as int].1);
                    return false;
                }
                i = i + 1;
            }
            assert(xs =~= ys);
            true
        },
        _ => false,
    }
}

/// The view of an optional value, null when absent.
pub open spec fn view_or_null(j: Option<&Json>) -> JsonView {
    match j {
        Some(v) => v@,
        None => JsonView::Null,
    }
}

/// Indexing by key, with a missing value read as null.
pub fn field<'a>(j: Option<&'a Json>, key: &str) -> (r: Option<&'a Json>)
    ensures
        view_or_null(r) == at(view_or_null(j), key@),
{
    match j {
        Some(v) => get(v, key),
        None => None,
    }
}

/// The elements of an array value.
pub fn items<'a>(j: Option<&'a Json>) -> (r: Option<&'a Vec<Json>>)
    ensures
        match r {
            Some(v) => elements(view_or_null(j)) matches Some(s) && s.len() == v@.len() && forall|i: int|
                0 <= i < v@.len() ==> #[trigger] s[i] == v@[i]@,
            None => elements(view_or_null(j)) is None,
        },
{
    match j {
        Some(Json::Array(v)) => Some(v),
        _ => None,
    }
}

/// An object with no members.
pub fn object0() -> (r: Json)
    ensures
        r@ == object(seq![]),
{
    let r = Json::Object(Vec::new());
    proof {
        match r@ {
            JsonView::Object(m) => assert(m =~= seq![]),
            _ => {},
        }
    }
    r
}

/// An object with one member.
pub fn object1(k: &str, v: Json) -> (r: Json)
    ensures
        r@ == object(seq![(k@, v@)]),
{
    let ghost vv = v@;
    let r = Json::Object(vec![(k.to_owned(), v)]);
    proof {
        match r@ {
            JsonView::Object(m) => assert(m =~= seq![(k@, vv)]),
            _ => {},
        }
    }
    r
}

/// An object with two members, in order.
pub fn object2(k1: &str, v1: Json, k2: &str, v2: Json) -> (r: Json)
    ensures
        r@ == object(seq![(k1@, v1@), (k2@, v2@)]),
{
    let ghost w1 = v1@;
    let ghost w2 = v2@;
    let r = Json::Object(vec![(k1.to_owned(), v1), (k2.to_owned(), v2)]);
    proof {
        match r@ {
            JsonView::Object(m) => assert(m =~= seq![(k1@, w1), (k2@, w2)]),
            _ => {},
        }
    }
    r
}

/// An object with three members, in order.
pub fn object3(k1: &str, v1: Json, k2: &str, v2: Json, k3: &str, v3: Json) -> (r: Json)
    ensures
        r@ == object(seq![(k1@, v1@), (k2@, v2@), (k3@, v3@)]),
{
    let ghost w1 = v1@;
    let ghost w2 = v2@;
    let ghost w3 = v3@;
    let r = Json::Object(vec![(k1.to_owned(), v1), (k2.to_owned(), v2), (k3.to_owned(), v3)]);
    proof {
        match r@ {
            JsonView::Object(m) => assert(m =~= seq![(k1@, w1), (k2@, w2), (k3@, w3)]),
            _ => {},
        }
    }
    r
}

/// An array with one element.
pub fn array1(v: Json) -> (r: Json)
    ensures
        r@ == JsonView::Array(seq![v@]),
{
    let ghost vv = v@;
    let r = Json::Array(vec![v]);
    proof {
        match r@ {
            JsonView::Array(m) => assert(m =~= seq![vv]),
            _ => {},
        }
    }
    r
}

/// A copy of an optional value, null when absent.
pub fn copy_or_null(j: Option<&Json>) -> (r: Json)
    ensures
        r@ == view_or_null(j),
{
    match j {
        Some(v) => copy(v),
        None => Json::Null,
    }
}

impl Clone for Json {
    fn clone(&self) -> (r: Json)
        ensures
            r@ == self@,
    {
        copy(self)
    }
}

/// A string value.
pub fn text_value(s: &str) -> (r: Json)
    ensures
        r@ == JsonView::Str(s@),
{
    Json::Str(s.to_owned())
}

/// An object from members, in order.
pub fn object_value(members: Vec<(String, Json)>) -> (r: Json)
    ensures
        r@ == object(
            Seq::new(members@.len(), |i: int| (members@[i].0@, members@[i].1@)),
        ),
{
    let r = Json::Object(members);
    assert(match r@ {
        JsonView::Object(a) => a =~= Seq::new(members@.len(), |i: int| (members@[i].0@, members@[i].1@)),
        _ => false,
    });
    r
}

} // verus!
