//! A JSON document as the device protocol exchanges it: the values that the
//! library reads from responses and writes into requests.

use vstd::prelude::*;
use crate::text::{chars_eq, chars_of};

verus! {

/// A JSON number: a non-negative integer, a negative integer, or a number
/// with a fraction or exponent (whose value the library does not read).
#[derive(Debug, Clone, Copy, PartialEq, Eq, Structural)]
pub enum JsonNumber {
    PosInt(u64),
    NegInt(i64),
    Float,
}

/// A JSON value; object members keep their order.
#[derive(Debug)]
pub enum Json {
    Null,
    Bool(bool),
    Number(JsonNumber),
    Str(String),
    Array(Vec<Json>),
    Object(Vec<(String, Json)>),
}

/// The abstract form of a JSON value.
#[verifier::ext_equal]
pub enum JsonView {
    Null,
    Bool(bool),
    Number(JsonNumber),
    Str(Seq<char>),
    Array(Seq<JsonView>),
    Object(Seq<(Seq<char>, JsonView)>),
}

impl Json {
    /// The abstract form of this value.
    pub open spec fn view_of(self) -> JsonView
        decreases self,
    {
        match self {
            Json::Null => JsonView::Null,
            Json::Bool(b) => JsonView::Bool(b),
            Json::Number(n) => JsonView::Number(n),
            Json::Str(s) => JsonView::Str(s@),
            Json::Array(v) => JsonView::Array(Json::views_of(v@)),
            Json::Object(m) => JsonView::Object(Json::members_of(m@)),
        }
    }

    /// The abstract forms of a sequence of values.
    pub open spec fn views_of(s: Seq<Json>) -> Seq<JsonView>
        decreases s,
    {
        if s.len() == 0 {
            Seq::empty()
        } else {
            seq![s[0].view_of()] + Json::views_of(s.subrange(1, s.len() as int))
        }
    }

    /// The abstract forms of object members.
    pub open spec fn members_of(s: Seq<(String, Json)>) -> Seq<(Seq<char>, JsonView)>
        decreases s,
    {
        if s.len() == 0 {
            Seq::empty()
        } else {
            seq![(s[0].0@, s[0].1.view_of())] + Json::members_of(s.subrange(1, s.len() as int))
        }
    }
}

impl View for Json {
    type V = JsonView;

    open spec fn view(&self) -> JsonView {
        self.view_of()
    }
}

/// The abstract forms of a sequence of values, element by element.
pub proof fn lemma_views_of(s: Seq<Json>)
    ensures
        Json::views_of(s) == s.map_values(|j: Json| j.view_of()),
    decreases s.len(),
{
    if s.len() > 0 {
        lemma_views_of(s.subrange(1, s.len() as int));
        assert(Json::views_of(s) =~= s.map_values(|j: Json| j.view_of()));
    } else {
        assert(Json::views_of(s) =~= s.map_values(|j: Json| j.view_of()));
    }
}

/// The abstract forms of object members, member by member.
pub proof fn lemma_members_of(s: Seq<(String, Json)>)
    ensures
        Json::members_of(s) == s.map_values(|e: (String, Json)| (e.0@, e.1.view_of())),
    decreases s.len(),
{
    if s.len() > 0 {
        lemma_members_of(s.subrange(1, s.len() as int));
        assert(Json::members_of(s) =~= s.map_values(|e: (String, Json)| (e.0@, e.1.view_of())));
    } else {
        assert(Json::members_of(s) =~= s.map_values(|e: (String, Json)| (e.0@, e.1.view_of())));
    }
}

/// An object with the members `members`, in order.
pub fn object(members: Vec<(String, Json)>) -> (j: Json)
    ensures
        j@ == JsonView::Object(members@.map_values(|e: (String, Json)| (e.0@, e.1@))),
{
    proof {
        lemma_members_of(members@);
        assert(members@.map_values(|e: (String, Json)| (e.0@, e.1@))
            =~= members@.map_values(|e: (String, Json)| (e.0@, e.1.view_of())));
    }
    Json::Object(members)
}

/// An array of the values `items`, in order.
pub fn array(items: Vec<Json>) -> (j: Json)
    ensures
        j@ == JsonView::Array(items@.map_values(|x: Json| x@)),
{
    proof {
        lemma_views_of(items@);
        assert(items@.map_values(|x: Json| x@) =~= items@.map_values(|j: Json| j.view_of()));
    }
    Json::Array(items)
}

/// The member `key: value`.
pub fn member_of(key: &str, value: Json) -> (e: (String, Json))
    ensures
        e.0@ == key@,
        e.1 == value,
{
    (String::from_str(key), value)
}

/// The non-negative integer `n`.
pub fn number(n: u64) -> (j: Json)
    ensures
        j@ == JsonView::Number(JsonNumber::PosInt(n)),
{
    Json::Number(JsonNumber::PosInt(n))
}

/// The integer `n`, stored as a non-negative or a negative integer.
pub fn signed_number(n: i64) -> (j: Json)
    ensures
        j@ == JsonView::Number(if n >= 0 { JsonNumber::PosInt(n as u64) } else { JsonNumber::NegInt(n) }),
{
    if n >= 0 { Json::Number(JsonNumber::PosInt(n as u64)) } else { Json::Number(JsonNumber::NegInt(n)) }
}

/// The string `s`.
pub fn string(s: &str) -> (j: Json)
    ensures
        j@ == JsonView::Str(s@),
{
    Json::Str(String::from_str(s))
}

/// The value of member `key` of an object (the first such member), if `j`
/// is an object that has one.
pub open spec fn member(j: Json, key: Seq<char>) -> Option<Json> {
    match j {
        Json::Object(m) => {
            let hits = m@.filter(named(key));
            if hits.len() > 0 { Some(hits[0].1) } else { None }
        },
        _ => None,
    }
}

/// An object member named `key`.
pub open spec fn named(key: Seq<char>) -> spec_fn((String, Json)) -> bool {
    |e: (String, Json)| e.0@ == key
}

/// The value reached from `j` by following the object members `path`.
pub open spec fn member_path(j: Json, path: Seq<Seq<char>>) -> Option<Json>
    decreases path.len(),
{
    if path.len() == 0 {
        Some(j)
    } else {
        match member(j, path[0]) {
            Some(v) => member_path(v, path.drop_first()),
            None => None,
        }
    }
}

/// The string of a string value.
pub open spec fn str_of(j: Option<Json>) -> Option<Seq<char>> {
    match j {
        Some(Json::Str(s)) => Some(s@),
        _ => None,
    }
}

/// The value of a non-negative integer.
pub open spec fn u64_of(j: Option<Json>) -> Option<u64> {
    match j {
        Some(Json::Number(JsonNumber::PosInt(n))) => Some(n),
        _ => None,
    }
}

/// The value of an integer that fits in 64 signed bits.
pub open spec fn i64_of(j: Option<Json>) -> Option<i64> {
    match j {
        Some(Json::Number(JsonNumber::PosInt(n))) => if n <= i64::MAX as u64 { Some(n as i64) } else { None },
        Some(Json::Number(JsonNumber::NegInt(n))) => Some(n),
        _ => None,
    }
}

/// The value of a boolean.
pub open spec fn bool_of(j: Option<Json>) -> Option<bool> {
    match j {
        Some(Json::Bool(b)) => Some(b),
        _ => None,
    }
}

proof fn lemma_first_member(m: Seq<(String, Json)>, k: int, key: Seq<char>)
    requires
        0 <= k <= m.len(),
        m.take(k).filter(named(key)).len() > 0,
    ensures
        m.filter(named(key)).len() > 0,
        m.filter(named(key))[0] == m.take(k).filter(named(key))[0],
    decreases m.len() - k,
{
    if k < m.len() {
        reveal(Seq::filter);
        assert(m.take(k + 1).drop_last() =~= m.take(k));
        lemma_first_member(m, k + 1, key);
    } else {
        assert(m.take(k) =~= m);
    }
}

impl Json {
    /// The value of member `key`, if this is an object that has one.
    pub fn get(&self, key: &str) -> (r: Option<&Json>)
        ensures
            match r {
                Some(v) => member(*self, key@) == Some(*v),
                None => member(*self, key@) is None,
            },
    {
        match self {
            Json::Object(m) => {
                let k = chars_of(key);
                let ghost pk = named(key@);
                let mut i: usize = 0;
                while i < m.len()
                    invariant
                        *self == Json::Object(*m),
                        i <= m@.len(),
                        k@ == key@,
                        pk == named(key@),
                        m@.take(i as int).filter(pk).len() == 0,
                    decreases m@.len() - i,
                {
                    proof {
                        reveal(Seq::filter);
                        assert(m@.take(i + 1).drop_last() =~= m@.take(i as int));
                    }
                    if chars_eq(&chars_of(m[i].0.as_str()), &k) {
                        proof {
                            reveal(Seq::filter);
                            assert(m@.take(i + 1).drop_last() =~= m@.take(i as int));
                            assert(m@.take(i + 1).last() == m@[i as int]);
                            assert(pk(m@[i as int]));
                            assert(m@.take(i + 1).filter(pk) =~= seq![m@[i as int]]);
                            lemma_first_member(m@, i + 1, key@);
                            assert(m@.filter(named(key@))[0] == m@[i as int]);
                            assert(member(*self, key@) == Some(m@[i as int].1));
                        }
                        return Some(&m[i].1);
                    }
                    i = i + 1;
                }
                assert(m@.take(m@.len() as int) =~= m@);
                None
            },
            _ => None,
        }
    }

    /// The value reached by following the object members `path` (a JSON
    /// pointer made of member names).
    pub fn pointer(&self, path: &[&str]) -> (r: Option<&Json>)
        ensures
            match r {
                Some(v) => member_path(*self, path@.map_values(|p: &str| p@)) == Some(*v),
                None => member_path(*self, path@.map_values(|p: &str| p@)) is None,
            },
    {
        let ghost keys = path@.map_values(|p: &str| p@);
        let mut cur: &Json = self;
        let mut i: usize = 0;
        assert(keys.subrange(0, keys.len() as int) =~= keys);
        while i < path.len()
            invariant
                i <= path@.len(),
                keys == path@.map_values(|p: &str| p@),
                member_path(*self, keys) == member_path(*cur, keys.subrange(i as int, keys.len() as int)),
            decreases path@.len() - i,
        {
            let ghost rest = keys.subrange(i as int, keys.len() as int);
            assert(rest[0] == path@[i as int]@);
            assert(rest.drop_first() =~= keys.subrange(i + 1, keys.len() as int));
            match cur.get(path[i]) {
                Some(v) => {
                    cur = v;
                },
                None => {
                    return None;
                },
            }
            i = i + 1;
        }
        assert(keys.subrange(i as int, keys.len() as int) =~= Seq::<Seq<char>>::empty());
        Some(cur)
    }

    /// The string, if this is a string.
    pub fn as_str(&self) -> (r: Option<&str>)
        ensures
            match r {
                Some(s) => str_of(Some(*self)) == Some(s@),
                None => str_of(Some(*self)) is None,
            },
    {
        match self {
            Json::Str(s) => Some(s.as_str()),
            _ => None,
        }
    }

    /// The value, if this is a non-negative integer.
    pub fn as_u64(&self) -> (r: Option<u64>)
        ensures
            r == u64_of(Some(*self)),
    {
        match self {
            Json::Number(JsonNumber::PosInt(n)) => Some(*n),
            _ => None,
        }
    }

    /// The value, if this is an integer that fits in 64 signed bits.
    pub fn as_i64(&self) -> (r: Option<i64>)
        ensures
            r == i64_of(Some(*self)),
    {
        match self {
            Json::Number(JsonNumber::PosInt(n)) => if *n <= i64::MAX as u64 { Some(*n as i64) } else { None },
            Json::Number(JsonNumber::NegInt(n)) => Some(*n),
            _ => None,
        }
    }

    /// The elements, if this is an array.
    pub fn as_array(&self) -> (r: Option<&Vec<Json>>)
        ensures
            match r {
                Some(v) => *self == Json::Array(*v),
                None => !(*self is Array),
            },
    {
        match self {
            Json::Array(v) => Some(v),
            _ => None,
        }
    }

    /// The value, if this is a boolean.
    pub fn as_bool(&self) -> (r: Option<bool>)
        ensures
            r == bool_of(Some(*self)),
    {
        match self {
            Json::Bool(b) => Some(*b),
            _ => None,
        }
    }
}

} // verus!
