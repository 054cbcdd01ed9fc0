//! JSON values: the model, objects with ascending keys, and their textual form.

use crate::text;
use serde_json::{Number, Value};
use vstd::prelude::*;

verus! {

/// A JSON number.
#[derive(Debug, PartialEq, Eq)]
pub enum JsonNumber {
    /// A whole number from zero up.
    PosInt(u64),
    /// A whole number below zero.
    NegInt(i64),
    /// Any other number, held as the decimal numeral that stands for it.
    Float(String),
}

/// A JSON object: its members, by ascending key.
#[derive(Debug, PartialEq, Eq)]
pub struct JsonMap {
    pub entries: Vec<(String, Json)>,
}

/// A JSON value.
#[derive(Debug, PartialEq, Eq)]
pub enum Json {
    Null,
    Bool(bool),
    Number(JsonNumber),
    String(String),
    Array(Vec<Json>),
    Object(JsonMap),
}

/// The mathematical value of a [`JsonNumber`].
#[verifier::ext_equal]
pub enum Jn {
    PosInt(u64),
    NegInt(i64),
    Float(Seq<char>),
}

/// The mathematical value of a [`Json`].
#[verifier::ext_equal]
pub enum Jv {
    Null,
    Bool(bool),
    Number(Jn),
    Str(Seq<char>),
    Array(Seq<Jv>),
    Object(Seq<(Seq<char>, Jv)>),
}

impl View for JsonNumber {
    type V = Jn;

    open spec fn view(&self) -> Jn {
        match *self {
            JsonNumber::PosInt(n) => Jn::PosInt(n),
            JsonNumber::NegInt(n) => Jn::NegInt(n),
            JsonNumber::Float(s) => Jn::Float(s@),
        }
    }
}

impl Json {
    pub open spec fn model(self) -> Jv
        decreases self,
    {
        match self {
            Json::Null => Jv::Null,
            Json::Bool(b) => Jv::Bool(b),
            Json::Number(n) => Jv::Number(n@),
            Json::String(s) => Jv::Str(s@),
            Json::Array(a) => Jv::Array(
                Seq::new(
                    a@.len(),
                    |i: int|
                        if 0 <= i < a@.len() {
                            a@[i].model()
                        } else {
                            Jv::Null
                        },
                ),
            ),
            Json::Object(m) => Jv::Object(
                Seq::new(
                    m.entries@.len(),
                    |i: int|
                        if 0 <= i < m.entries@.len() {
                            (m.entries@[i].0@, m.entries@[i].1.model())
                        } else {
                            (Seq::empty(), Jv::Null)
                        },
                ),
            ),
        }
    }
}

impl View for Json {
    type V = Jv;

    open spec fn view(&self) -> Jv {
        self.model()
    }
}

/// The mathematical values of the items.
pub open spec fn models(a: Seq<Json>) -> Seq<Jv> {
    Seq::new(a.len(), |i: int| a[i]@)
}

/// The mathematical values of the members.
pub open spec fn entry_models(es: Seq<(String, Json)>) -> Seq<(Seq<char>, Jv)> {
    Seq::new(es.len(), |i: int| (es[i].0@, es[i].1@))
}

impl View for JsonMap {
    type V = Seq<(Seq<char>, Jv)>;

    open spec fn view(&self) -> Seq<(Seq<char>, Jv)> {
        entry_models(self.entries@)
    }
}

/// The model of an array is made of the models of its items.
pub proof fn lemma_array_model(a: Vec<Json>)
    ensures
        Json::Array(a)@ == Jv::Array(models(a@)),
{
    assert(Json::Array(a)@->Array_0 =~= models(a@));
}

/// The model of an object is made of the models of its members.
pub proof fn lemma_object_model(m: JsonMap)
    ensures
        Json::Object(m)@ == Jv::Object(m@),
{
    assert(Json::Object(m)@->Object_0 =~= m@);
}

impl Clone for JsonNumber {
    fn clone(&self) -> (r: Self)
        ensures
            r@ == self@,
    {
        match self {
            JsonNumber::PosInt(n) => JsonNumber::PosInt(*n),
            JsonNumber::NegInt(n) => JsonNumber::NegInt(*n),
            JsonNumber::Float(s) => JsonNumber::Float(s.clone()),
        }
    }
}

impl Clone for Json {
    fn clone(&self) -> (r: Self)
        ensures
            r@ == self@,
        decreases self,
    {
        match self {
            Json::Null => Json::Null,
            Json::Bool(b) => Json::Bool(*b),
            Json::Number(n) => Json::Number(n.clone()),
            Json::String(s) => Json::String(s.clone()),
            Json::Array(a) => {
                let mut out: Vec<Json> = Vec::new();
                let mut i: usize = 0;
                while i < a.len()
                    invariant
                        i <= a@.len(),
                        out@.len() == i,
                        *self == Json::Array(*a),
                        forall|j: int| 0 <= j < i ==> (#[trigger] out@[j])@ == a@[j]@,
                    decreases a@.len() - i,
                {
                    assert(decreases_to!(*self => self->Array_0));
                    assert(decreases_to!(a => a[i as int]));
                    out.push(a[i].clone());
                    i = i + 1;
                }
                assert(models(out@) =~= models(a@));
                proof {
                    lemma_array_model(out);
                    lemma_array_model(*a);
                }
                Json::Array(out)
            },
            Json::Object(m) => {
                let mut out: Vec<(String, Json)> = Vec::new();
                let mut i: usize = 0;
                while i < m.entries.len()
                    invariant
                        i <= m.entries@.len(),
                        out@.len() == i,
                        *self == Json::Object(*m),
                        forall|j: int|
                            0 <= j < i ==> (#[trigger] out@[j]).0@ == m.entries@[j].0@
                                && out@[j].1@ == m.entries@[j].1@,
                    decreases m.entries@.len() - i,
                {
                    assert(decreases_to!(*self => self->Object_0));
                    assert(decreases_to!(self->Object_0 => self->Object_0.entries));
                    assert(decreases_to!(m.entries => m.entries[i as int]));
                    assert(decreases_to!(m.entries[i as int] => m.entries[i as int].1));
                    let e = &m.entries[i];
                    out.push((e.0.clone(), e.1.clone()));
                    i = i + 1;
                }
                let copy = JsonMap { entries: out };
                assert(copy@ =~= m@);
                proof {
                    lemma_object_model(copy);
                    lemma_object_model(*m);
                }
                Json::Object(copy)
            },
        }
    }
}

// ---------------------------------------------------------------------------
// Objects
// ---------------------------------------------------------------------------

/// The members after `key` was given `value`: in the place of an equal key, or in front of the
/// first larger one.
pub open spec fn insert(es: Seq<(Seq<char>, Jv)>, key: Seq<char>, value: Jv) -> Seq<
    (Seq<char>, Jv),
>
    decreases es.len(),
{
    if es.len() == 0 {
        seq![(key, value)]
    } else if es[0].0 == key {
        seq![(key, value)] + es.skip(1)
    } else if text::less(key, es[0].0) {
        seq![(key, value)] + es
    } else {
        seq![es[0]] + insert(es.skip(1), key, value)
    }
}

/// The value of the first member with that key.
pub open spec fn lookup(es: Seq<(Seq<char>, Jv)>, key: Seq<char>) -> Option<Jv>
    decreases es.len(),
{
    if es.len() == 0 {
        None
    } else if es[0].0 == key {
        Some(es[0].1)
    } else {
        lookup(es.skip(1), key)
    }
}

/// The object made by inserting the members one after another.
pub open spec fn object(members: Seq<(Seq<char>, Jv)>) -> Seq<(Seq<char>, Jv)>
    decreases members.len(),
{
    if members.len() == 0 {
        Seq::empty()
    } else {
        insert(object(members.drop_last()), members.last().0, members.last().1)
    }
}

/// What a value holds under a key: nothing if it is no object.
pub open spec fn member(v: Jv, key: Seq<char>) -> Option<Jv> {
    match v {
        Jv::Object(es) => lookup(es, key),
        _ => None,
    }
}

/// Whether the keys ascend strictly.
pub open spec fn ascending(es: Seq<(Seq<char>, Jv)>) -> bool {
    forall|i: int, j: int| 0 <= i < j < es.len() ==> text::less(#[trigger] es[i].0, #[trigger] es[j].0)
}

/// Reading a key gives what was last inserted under it, and no other key is touched.
pub proof fn law_lookup_insert(es: Seq<(Seq<char>, Jv)>, key: Seq<char>, value: Jv, other: Seq<char>)
    ensures
        lookup(insert(es, key, value), key) == Some(value),
        other != key ==> lookup(insert(es, key, value), other) == lookup(es, other),
    decreases es.len(),
{
    let r = insert(es, key, value);
    if es.len() == 0 {
        assert(r.skip(1) =~= es);
    } else if es[0].0 == key {
        assert(r.skip(1) =~= es.skip(1));
    } else if text::less(key, es[0].0) {
        assert(r.skip(1) =~= es);
    } else {
        assert(r.skip(1) =~= insert(es.skip(1), key, value));
        law_lookup_insert(es.skip(1), key, value, other);
    }
}

/// Inserting keeps the keys ascending, and adds no key but the one inserted.
pub proof fn law_insert_ascending(es: Seq<(Seq<char>, Jv)>, key: Seq<char>, value: Jv)
    requires
        ascending(es),
    ensures
        ascending(insert(es, key, value)),
        forall|i: int|
            0 <= i < insert(es, key, value).len() ==> (#[trigger] insert(es, key, value)[i]) == (
                key,
                value,
            ) || es.contains(insert(es, key, value)[i]),
    decreases es.len(),
{
    broadcast use text::less_transitive;

    let r = insert(es, key, value);
    if es.len() == 0 {
    } else if es[0].0 == key {
        assert forall|i: int| 0 <= i < r.len() implies (#[trigger] r[i]) == (key, value)
            || es.contains(r[i]) by {
            if i > 0 {
                assert(r[i] == es[i]);
            }
        }
        assert forall|i: int, j: int| 0 <= i < j < r.len() implies text::less(
            #[trigger] r[i].0,
            #[trigger] r[j].0,
        ) by {
            assert(r[j] == es[j]);
            assert(text::less(es[i].0, es[j].0));
        }
    } else if text::less(key, es[0].0) {
        assert forall|i: int| 0 <= i < r.len() implies (#[trigger] r[i]) == (key, value)
            || es.contains(r[i]) by {
            if i > 0 {
                assert(r[i] == es[i - 1]);
            }
        }
        assert forall|i: int, j: int| 0 <= i < j < r.len() implies text::less(
            #[trigger] r[i].0,
            #[trigger] r[j].0,
        ) by {
            assert(r[j] == es[j - 1]);
            if i > 0 {
                assert(r[i] == es[i - 1]);
                assert(text::less(es[i - 1].0, es[j - 1].0));
            } else if j > 1 {
                assert(text::less(es[0].0, es[j - 1].0));
            }
        }
    } else {
        let tail = es.skip(1);
        assert forall|i: int, j: int| 0 <= i < j < tail.len() implies text::less(
            #[trigger] tail[i].0,
            #[trigger] tail[j].0,
        ) by {
            assert(text::less(es[i + 1].0, es[j + 1].0));
        }
        law_insert_ascending(tail, key, value);
        let rest = insert(tail, key, value);
        text::lemma_less_total(key, es[0].0);
        assert forall|i: int| 0 <= i < rest.len() implies text::less(
            es[0].0,
            (#[trigger] rest[i]).0,
        ) && (rest[i] == (key, value) || es.contains(rest[i])) by {
            if rest[i] != (key, value) {
                let k = choose|k: int| 0 <= k < tail.len() && tail[k] == rest[i];
                assert(es[k + 1] == rest[i]);
                assert(text::less(es[0].0, es[k + 1].0));
            }
        }
        assert forall|i: int| 0 <= i < r.len() implies (#[trigger] r[i]) == (key, value)
            || es.contains(r[i]) by {
            if i > 0 {
                assert(r[i] == rest[i - 1]);
            } else {
                assert(r[0] == es[0]);
            }
        }
        assert forall|i: int, j: int| 0 <= i < j < r.len() implies text::less(
            #[trigger] r[i].0,
            #[trigger] r[j].0,
        ) by {
            assert(r[j] == rest[j - 1]);
            if i > 0 {
                assert(r[i] == rest[i - 1]);
            }
        }
    }
}

impl JsonMap {
    /// An empty object.
    pub fn new() -> (r: Self)
        ensures
            r@ == Seq::<(Seq<char>, Jv)>::empty(),
    {
        let r = JsonMap { entries: Vec::new() };
        assert(r@ =~= Seq::<(Seq<char>, Jv)>::empty());
        r
    }

    /// How many members the object has.
    pub fn len(&self) -> (r: usize)
        ensures
            r == self@.len(),
    {
        self.entries.len()
    }

    /// Gives `key` the value, in the place of an earlier one.
    pub fn insert(&mut self, key: &str, value: Json)
        ensures
            final(self)@ == insert(old(self)@, key@, value@),
    {
        let ghost es = old(self)@;
        let mut i: usize = 0;
        assert(es.skip(0) =~= es);
        assert(es.take(0) + insert(es.skip(0), key@, value@) =~= insert(es, key@, value@));
        while i < self.entries.len()
            invariant
                es == self@,
                self@ == old(self)@,
                i <= self.entries@.len(),
                insert(es, key@, value@) == es.take(i as int) + insert(
                    es.skip(i as int),
                    key@,
                    value@,
                ),
            decreases self.entries@.len() - i,
        {
            let ghost rest = es.skip(i as int);
            if text::str_eq(self.entries[i].0.as_str(), key) {
                self.entries.set(i, (key.to_string(), value));
                assert(rest.skip(1) =~= es.skip(i + 1));
                assert(self@ =~= insert(es, key@, value@));
                return;
            }
            if text::str_less(key, self.entries[i].0.as_str()) {
                self.entries.insert(i, (key.to_string(), value));
                assert(self@ =~= insert(es, key@, value@));
                return;
            }
            proof {
                assert(rest.skip(1) =~= es.skip(i + 1));
                assert(es.take(i as int) + (seq![rest[0]] + insert(rest.skip(1), key@, value@))
                    =~= es.take(i + 1) + insert(es.skip(i + 1), key@, value@));
            }
            i = i + 1;
        }
        assert(es.skip(i as int) =~= Seq::<(Seq<char>, Jv)>::empty());
        assert(es.take(i as int) =~= es);
        self.entries.push((key.to_string(), value));
        assert(self@ =~= insert(es, key@, value@));
    }

    /// The value under a key.
    pub fn get(&self, key: &str) -> (r: Option<&Json>)
        ensures
            match lookup(self@, key@) {
                Some(v) => r is Some && r->0@ == v,
                None => r is None,
            },
    {
        let mut i: usize = 0;
        assert(self@.skip(0) =~= self@);
        while i < self.entries.len()
            invariant
                i <= self.entries@.len(),
                lookup(self@, key@) == lookup(self@.skip(i as int), key@),
            decreases self.entries@.len() - i,
        {
            if text::str_eq(self.entries[i].0.as_str(), key) {
                return Some(&self.entries[i].1);
            }
            assert(self@.skip(i as int).skip(1) =~= self@.skip(i + 1));
            i = i + 1;
        }
        None
    }

    /// Whether the object has a member with that key.
    pub fn contains_key(&self, key: &str) -> (r: bool)
        ensures
            r == (lookup(self@, key@) is Some),
    {
        self.get(key).is_some()
    }
}

// ---------------------------------------------------------------------------
// Access
// ---------------------------------------------------------------------------

/// The whole number that a number is, if it fits in 64 bits with a sign.
pub open spec fn number_i64(n: Jn) -> Option<i64> {
    match n {
        Jn::PosInt(u) => if u <= i64::MAX {
            Some(u as i64)
        } else {
            None
        },
        Jn::NegInt(i) => Some(i),
        Jn::Float(_) => None,
    }
}

/// The number that stands for an integer.
pub open spec fn int_number(i: int) -> Jv {
    if i >= 0 {
        Jv::Number(Jn::PosInt(i as u64))
    } else {
        Jv::Number(Jn::NegInt(i as i64))
    }
}

/// The integer that a value is, if it is one that fits.
pub open spec fn as_i64(v: Jv) -> Option<i64> {
    match v {
        Jv::Number(n) => number_i64(n),
        _ => None,
    }
}

/// The integer from zero up that a value is.
pub open spec fn as_u64(v: Jv) -> Option<u64> {
    match v {
        Jv::Number(Jn::PosInt(u)) => Some(u),
        _ => None,
    }
}

/// The text that a value is.
pub open spec fn as_str(v: Jv) -> Option<Seq<char>> {
    match v {
        Jv::Str(s) => Some(s),
        _ => None,
    }
}

impl Json {
    /// The number that stands for an integer.
    pub fn integer(i: i64) -> (r: Json)
        ensures
            r@ == int_number(i as int),
    {
        if i >= 0 {
            Json::Number(JsonNumber::PosInt(i as u64))
        } else {
            Json::Number(JsonNumber::NegInt(i))
        }
    }

    /// The number that stands for an integer from zero up.
    pub fn unsigned(u: u64) -> (r: Json)
        ensures
            r@ == Jv::Number(Jn::PosInt(u)),
    {
        Json::Number(JsonNumber::PosInt(u))
    }

    /// The value that is a text.
    pub fn str(s: &str) -> (r: Json)
        ensures
            r@ == Jv::Str(s@),
    {
        Json::String(s.to_string())
    }

    /// The array of the given items.
    pub fn array(items: Vec<Json>) -> (r: Json)
        ensures
            r@ == Jv::Array(models(items@)),
    {
        proof {
            lemma_array_model(items);
        }
        Json::Array(items)
    }

    /// The object of the given members.
    pub fn object(m: JsonMap) -> (r: Json)
        ensures
            r@ == Jv::Object(m@),
    {
        proof {
            lemma_object_model(m);
        }
        Json::Object(m)
    }

    pub fn is_null(&self) -> (r: bool)
        ensures
            r == (self@ is Null),
    {
        matches!(self, Json::Null)
    }

    pub fn as_bool(&self) -> (r: Option<bool>)
        ensures
            r == (match self@ {
                Jv::Bool(b) => Some(b),
                _ => None,
            }),
    {
        match self {
            Json::Bool(b) => Some(*b),
            _ => None,
        }
    }

    pub fn as_i64(&self) -> (r: Option<i64>)
        ensures
            r == as_i64(self@),
    {
        match self {
            Json::Number(JsonNumber::PosInt(u)) => if *u <= 9223372036854775807u64 {
                Some(*u as i64)
            } else {
                None
            },
            Json::Number(JsonNumber::NegInt(i)) => Some(*i),
            _ => None,
        }
    }

    pub fn as_u64(&self) -> (r: Option<u64>)
        ensures
            r == as_u64(self@),
    {
        match self {
            Json::Number(JsonNumber::PosInt(u)) => Some(*u),
            _ => None,
        }
    }

    pub fn as_str(&self) -> (r: Option<&str>)
        ensures
            match as_str(self@) {
                Some(s) => r is Some && r->0@ == s,
                None => r is None,
            },
    {
        match self {
            Json::String(s) => Some(s.as_str()),
            _ => None,
        }
    }

    pub fn as_array(&self) -> (r: Option<&Vec<Json>>)
        ensures
            r is Some <==> self@ is Array,
            r is Some ==> self@ == Jv::Array(models(r->0@)),
    {
        match self {
            Json::Array(a) => {
                proof {
                    lemma_array_model(*a);
                }
                Some(a)
            },
            _ => None,
        }
    }

    pub fn as_object(&self) -> (r: Option<&JsonMap>)
        ensures
            r is Some <==> self@ is Object,
            r is Some ==> self@ == Jv::Object(r->0@),
    {
        match self {
            Json::Object(m) => {
                proof {
                    lemma_object_model(*m);
                }
                Some(m)
            },
            _ => None,
        }
    }

    /// What the value holds under a key: nothing if it is no object.
    pub fn get(&self, key: &str) -> (r: Option<&Json>)
        ensures
            match member(self@, key@) {
                Some(v) => r is Some && r->0@ == v,
                None => r is None,
            },
    {
        match self.as_object() {
            Some(m) => m.get(key),
            None => None,
        }
    }
}

/// Whether the numeral is that of zero, of either sign.
pub open spec fn is_zero(s: Seq<char>) -> bool {
    s == "0.0"@ || s == "-0.0"@
}

/// Whether two values are equal: two zeros are, whatever their signs.
pub open spec fn equal(a: Jv, b: Jv) -> bool
    decreases a,
{
    match (a, b) {
        (Jv::Number(Jn::Float(x)), Jv::Number(Jn::Float(y))) => x == y || (is_zero(x) && is_zero(
            y,
        )),
        (Jv::Array(x), Jv::Array(y)) => x.len() == y.len() && forall|i: int|
            0 <= i < x.len() ==> equal(#[trigger] x[i], y[i]),
        (Jv::Object(x), Jv::Object(y)) => x.len() == y.len() && forall|i: int|
            0 <= i < x.len() ==> (#[trigger] x[i]).0 == y[i].0 && equal(x[i].1, y[i].1),
        _ => a == b,
    }
}

fn check_zero(s: &str) -> (r: bool)
    ensures
        r == is_zero(s@),
{
    text::str_eq(s, "0.0") || text::str_eq(s, "-0.0")
}

/// Whether the two values are equal.
pub fn same(a: &Json, b: &Json) -> (r: bool)
    ensures
        r == equal(a@, b@),
    decreases a,
{
    match (a, b) {
        (Json::Null, Json::Null) => true,
        (Json::Bool(x), Json::Bool(y)) => *x == *y,
        (Json::Number(JsonNumber::PosInt(x)), Json::Number(JsonNumber::PosInt(y))) => *x == *y,
        (Json::Number(JsonNumber::NegInt(x)), Json::Number(JsonNumber::NegInt(y))) => *x == *y,
        (Json::Number(JsonNumber::Float(x)), Json::Number(JsonNumber::Float(y))) => text::str_eq(
            x.as_str(),
            y.as_str(),
        ) || (check_zero(x.as_str()) && check_zero(y.as_str())),
        (Json::String(x), Json::String(y)) => text::str_eq(x.as_str(), y.as_str()),
        (Json::Array(x), Json::Array(y)) => {
            proof {
                lemma_array_model(*x);
                lemma_array_model(*y);
            }
            if x.len() != y.len() {
                assert(models(x@).len() != models(y@).len());
                return false;
            }
            let mut i: usize = 0;
            while i < x.len()
                invariant
                    *a == Json::Array(*x),
                    a@ == Jv::Array(models(x@)),
                    b@ == Jv::Array(models(y@)),
                    x@.len() == y@.len(),
                    i <= x@.len(),
                    forall|j: int|
                        0 <= j < i ==> equal(#[trigger] models(x@)[j], models(y@)[j]),
                decreases x@.len() - i,
            {
                assert(decreases_to!(*a => a->Array_0));
                assert(decreases_to!(x => x[i as int]));
                if !same(&x[i], &y[i]) {
                    assert(!equal(models(x@)[i as int], models(y@)[i as int]));
                    return false;
                }
                i = i + 1;
            }
            true
        },
        (Json::Object(x), Json::Object(y)) => {
            proof {
                lemma_object_model(*x);
                lemma_object_model(*y);
            }
            if x.entries.len() != y.entries.len() {
                assert(x@.len() != y@.len());
                return false;
            }
            let mut i: usize = 0;
            while i < x.entries.len()
                invariant
                    *a == Json::Object(*x),
                    a@ == Jv::Object(x@),
                    b@ == Jv::Object(y@),
                    x@.len() == y@.len(),
                    i <= x.entries@.len(),
                    forall|j: int|
                        0 <= j < i ==> (#[trigger] x@[j]).0 == y@[j].0 && equal(x@[j].1, y@[j].1),
                decreases x.entries@.len() - i,
            {
                assert(decreases_to!(*a => a->Object_0));
                assert(decreases_to!(a->Object_0 => a->Object_0.entries));
                assert(decreases_to!(x.entries => x.entries[i as int]));
                assert(decreases_to!(x.entries[i as int] => x.entries[i as int].1));
                let e = &x.entries[i];
                let f = &y.entries[i];
                if !text::str_eq(e.0.as_str(), f.0.as_str()) || !same(&e.1, &f.1) {
                    assert(!(x@[i as int].0 == y@[i as int].0 && equal(
                        x@[i as int].1,
                        y@[i as int].1,
                    )));
                    return false;
                }
                i = i + 1;
            }
            true
        },
        _ => false,
    }
}

/// The object made by inserting the members one after another.
fn insert_all(members: Vec<(String, Json)>) -> (r: JsonMap)
    ensures
        r@ == object(entry_models(members@)),
    decreases members@.len(),
{
    let ghost all = entry_models(members@);
    let mut front = members;
    match front.pop() {
        None => {
            assert(all =~= Seq::empty());
            JsonMap::new()
        },
        Some(last) => {
            assert(entry_models(front@) =~= all.drop_last());
            let mut m = insert_all(front);
            m.insert(last.0.as_str(), last.1);
            m
        },
    }
}

/// A member of an object.
pub fn field(key: &str, value: Json) -> (r: (String, Json))
    ensures
        r.0@ == key@,
        r.1@ == value@,
{
    (key.to_string(), value)
}

impl Json {
    /// The object of the given members.
    pub fn from_members(members: Vec<(String, Json)>) -> (r: Json)
        ensures
            r@ == Jv::Object(object(entry_models(members@))),
    {
        let m = insert_all(members);
        Json::object(m)
    }
}

// ---------------------------------------------------------------------------
// Textual form
// ---------------------------------------------------------------------------

/// The compact textual form of a value.
pub uninterp spec fn json_text(v: Jv) -> Seq<char>;

/// The compact textual form of the object with the given members, in the given order.
pub uninterp spec fn json_members_text(members: Seq<(Seq<char>, Jv)>) -> Seq<char>;

/// The value that a text stands for, or the message of the error.
pub uninterp spec fn json_read(s: Seq<char>) -> Result<Jv, Seq<char>>;

/// What is wrong with a text that `serde_json` reads without keeping anything of it; nothing if
/// it is JSON.
pub uninterp spec fn json_fault(s: Seq<char>) -> Option<Seq<char>>;

/// Whether the text stands for the value.
pub open spec fn reads_as(s: Seq<char>, v: Jv) -> bool {
    json_read(s) == Ok::<Jv, Seq<char>>(v)
}

/// Whether a text holds the value exactly: no floats, keys that ascend, whole numbers below zero
/// where a sign stands, and arrays and objects nested at most `depth` deep.
pub open spec fn storable(v: Jv, depth: nat) -> bool
    decreases v,
{
    match v {
        Jv::Number(Jn::Float(_)) => false,
        Jv::Number(Jn::NegInt(n)) => n < 0,
        Jv::Array(a) => depth > 0 && forall|i: int|
            0 <= i < a.len() ==> storable(#[trigger] a[i], (depth - 1) as nat),
        Jv::Object(es) => depth > 0 && ascending(es) && forall|i: int|
            0 <= i < es.len() ==> storable((#[trigger] es[i]).1, (depth - 1) as nat),
        _ => true,
    }
}

/// Whether no key stands twice.
pub open spec fn distinct_keys(members: Seq<(Seq<char>, Jv)>) -> bool {
    forall|i: int, j: int|
        0 <= i < j < members.len() ==> (#[trigger] members[i]).0 != (#[trigger] members[j]).0
}

/// Whether a text holds the object of these members exactly: no key stands twice, and a text holds
/// each value.
pub open spec fn readable_members(members: Seq<(Seq<char>, Jv)>) -> bool {
    &&& distinct_keys(members)
    &&& forall|i: int| 0 <= i < members.len() ==> storable((#[trigger] members[i]).1, 126)
}

/// A JSON value of `serde_json`.
#[verifier::external_type_specification]
#[verifier::external_body]
pub struct ExValue(serde_json::Value);

/// Changes a value into one of `serde_json`, one for one; a numeral that no finite float stands
/// for becomes `null`, as `serde_json` has it.
#[verifier::external_body]
pub(crate) fn to_value(v: &Json) -> Value {
    match v {
        Json::Null => Value::Null,
        Json::Bool(b) => Value::Bool(*b),
        Json::Number(JsonNumber::PosInt(u)) => Value::from(*u),
        Json::Number(JsonNumber::NegInt(i)) => Value::from(*i),
        Json::Number(JsonNumber::Float(s)) => s.parse().ok().and_then(Number::from_f64).into(),
        Json::String(s) => Value::String(s.clone()),
        Json::Array(a) => Value::Array(a.iter().map(to_value).collect()),
        Json::Object(m) => Value::Object(
            m.entries.iter().map(|e| (e.0.clone(), to_value(&e.1))).collect(),
        ),
    }
}

/// Changes a value of `serde_json` into one of this library, one for one. An object of
/// `serde_json` hands its members out by ascending key.
#[verifier::external_body]
pub(crate) fn from_value(v: Value) -> Json {
    match v {
        Value::Null => Json::Null,
        Value::Bool(b) => Json::Bool(b),
        Value::Number(n) => Json::Number(match (n.as_u64(), n.as_i64()) {
            (Some(u), _) => JsonNumber::PosInt(u),
            (None, Some(i)) => JsonNumber::NegInt(i),
            (None, None) => JsonNumber::Float(n.to_string()),
        }),
        Value::String(s) => Json::String(s),
        Value::Array(a) => Json::Array(a.into_iter().map(from_value).collect()),
        Value::Object(m) => Json::Object(
            JsonMap { entries: m.into_iter().map(|(k, v)| (k, from_value(v))).collect() },
        ),
    }
}

/// `serde_json::to_string` of a value: its compact text, which is named, not described. Reading
/// the text of a value that a text can hold exactly gives the value; the reader goes 127 levels
/// deep. The text is not empty and has no white space at its ends.
#[verifier::external_body]
fn value_text(v: &Json) -> (r: String)
    ensures
        r@ == json_text(v@),
        r@.len() > 0 && !text::is_white(r@[0]) && !text::is_white(r@.last()),
        storable(v@, 127) ==> reads_as(r@, v@),
{
    serde_json::to_string(&to_value(v)).unwrap_or_default()
}

/// `serde_json::to_string` of a structure with the given fields: the compact text of the object
/// that holds them in the order in which they stand. Reading the text of members that a text can
/// hold exactly, no key twice, gives the object of these members.
#[verifier::external_body]
fn members_text(members: &Vec<(String, Json)>) -> (r: String)
    ensures
        r@ == json_members_text(entry_models(members@)),
        readable_members(entry_models(members@)) ==> reads_as(
            r@,
            Jv::Object(object(entry_models(members@))),
        ),
{
    let mut buf = Vec::new();
    let mut out = serde_json::Serializer::new(&mut buf);
    let pairs = members.iter().map(|e| (e.0.as_str(), to_value(&e.1)));
    match serde::Serializer::collect_map(&mut out, pairs) {
        Ok(()) => String::from_utf8(buf).unwrap_or_default(),
        Err(_) => String::new(),
    }
}

/// `serde_json::from_str`: the value that the text stands for, or the message of its error, both
/// named, not described.
#[verifier::external_body]
fn text_value(s: &str) -> (r: Result<Json, String>)
    ensures
        match json_read(s@) {
            Ok(v) => r is Ok && r->Ok_0@ == v,
            Err(e) => r is Err && r->Err_0@ == e,
        },
{
    match serde_json::from_str(s) {
        Ok(v) => Ok(from_value(v)),
        Err(e) => Err(serde_json::Error::to_string(&e)),
    }
}

/// `serde_json::from_str` into `serde::de::IgnoredAny`, which keeps nothing: the message of its
/// error, if the text is no JSON, which is named, not described.
#[verifier::external_body]
pub(crate) fn text_fault(s: &str) -> (r: Option<String>)
    ensures
        match json_fault(s@) {
            Some(e) => r is Some && (r->0)@ == e,
            None => r is None,
        },
{
    serde_json::from_str::<serde::de::IgnoredAny>(s).err().map(|e| e.to_string())
}

impl Json {
    /// The compact textual form of the value.
    pub fn to_string(&self) -> (r: String)
        ensures
            r@ == json_text(self@),
            r@.len() > 0 && !text::is_white(r@[0]) && !text::is_white(r@.last()),
            storable(self@, 127) ==> reads_as(r@, self@),
    {
        value_text(self)
    }

    /// The value that a text stands for, or the message of the error.
    pub fn parse(s: &str) -> (r: Result<Json, String>)
        ensures
            match json_read(s@) {
                Ok(v) => r is Ok && r->Ok_0@ == v,
                Err(e) => r is Err && r->Err_0@ == e,
            },
    {
        text_value(s)
    }
}

/// The compact textual form of the object that holds the members in the order given.
pub fn members_to_string(members: &Vec<(String, Json)>) -> (r: String)
    ensures
        r@ == json_members_text(entry_models(members@)),
        readable_members(entry_models(members@)) ==> reads_as(
            r@,
            Jv::Object(object(entry_models(members@))),
        ),
{
    members_text(members)
}

} // verus!
