//! Conversion between S-expressions and JSON values.

use crate::float;
use crate::json;
use crate::json::{Jn, Json, JsonMap, JsonNumber, Jv};
use crate::sexp;
use crate::sexp::{Sexp, SexpValue};
use crate::text;
use vstd::prelude::*;

verus! {

/// Whether the items alternate keywords and values.
pub open spec fn is_plist(items: Seq<Sexp>) -> bool {
    &&& items.len() > 0
    &&& items.len() % 2 == 0
    &&& forall|i: int| 0 <= i < items.len() && i % 2 == 0 ==> (#[trigger] items[i]) is Keyword
}

/// The key of a keyword: its name without the colon.
pub open spec fn keyword_key(name: Seq<char>) -> Seq<char> {
    if name.len() > 0 && name[0] == ':' {
        name.skip(1)
    } else {
        name
    }
}

/// The JSON value of an S-expression.
///
/// A keyword plist becomes an object, any other list an array, a cons cell an array of two;
/// symbols and keywords become strings, `nil` and false become null; a quote mark is dropped.
pub open spec fn json_of(v: Sexp) -> Jv
    decreases v,
{
    match v {
        Sexp::Nil => Jv::Null,
        Sexp::Bool(b) => if b {
            Jv::Bool(true)
        } else {
            Jv::Null
        },
        Sexp::Integer(n) => json::int_number(n as int),
        Sexp::Float(s) => match float::number_text(s) {
            Some(t) => Jv::Number(Jn::Float(t)),
            None => Jv::Null,
        },
        Sexp::String(s) => Jv::Str(s),
        Sexp::Symbol(s) => if s == "t"@ {
            Jv::Bool(true)
        } else if s == "nil"@ {
            Jv::Null
        } else {
            Jv::Str(s)
        },
        Sexp::Keyword(s) => Jv::Str(s),
        Sexp::Cons(a, b) => Jv::Array(seq![json_of(*a), json_of(*b)]),
        Sexp::List(items) => if is_plist(items) {
            Jv::Object(json::object(plist_members(items)))
        } else {
            Jv::Array(
                Seq::new(
                    items.len(),
                    |i: int|
                        if 0 <= i < items.len() {
                            json_of(items[i])
                        } else {
                            Jv::Null
                        },
                ),
            )
        },
        Sexp::Quoted(a) => json_of(*a),
    }
}

/// The members of the object that a keyword plist becomes.
pub open spec fn plist_members(items: Seq<Sexp>) -> Seq<(Seq<char>, Jv)>
    decreases items,
{
    Seq::new(
        (items.len() / 2) as nat,
        |i: int|
            if 0 <= i < items.len() / 2 {
                (keyword_key(items[2 * i]->Keyword_0), json_of(items[2 * i + 1]))
            } else {
                (Seq::empty(), Jv::Null)
            },
    )
}

/// The S-expression of a JSON value.
///
/// An object becomes a keyword plist, an array a list; false and null become `nil`.
pub open spec fn sexp_of(v: Jv) -> Sexp
    decreases v,
{
    match v {
        Jv::Null => Sexp::Nil,
        Jv::Bool(b) => if b {
            Sexp::Bool(true)
        } else {
            Sexp::Nil
        },
        Jv::Number(n) => match json::number_i64(n) {
            Some(i) => Sexp::Integer(i),
            None => match n {
                Jn::PosInt(u) => Sexp::Float(sexp::numeral_of(text::decimal(u as nat))),
                Jn::NegInt(i) => Sexp::Integer(i),
                Jn::Float(s) => Sexp::Float(sexp::numeral_of(s)),
            },
        },
        Jv::Str(s) => Sexp::String(s),
        Jv::Array(a) => Sexp::List(
            Seq::new(
                a.len(),
                |i: int|
                    if 0 <= i < a.len() {
                        sexp_of(a[i])
                    } else {
                        Sexp::Nil
                    },
            ),
        ),
        Jv::Object(es) => Sexp::List(
            Seq::new(
                2 * es.len(),
                |i: int|
                    if 0 <= i < 2 * es.len() {
                        if i % 2 == 0 {
                            Sexp::Keyword(seq![':'] + es[i / 2].0)
                        } else {
                            sexp_of(es[i / 2].1)
                        }
                    } else {
                        Sexp::Nil
                    },
            ),
        ),
    }
}

/// The S-expressions of JSON values.
pub open spec fn sexps_of(a: Seq<Jv>) -> Seq<Sexp> {
    Seq::new(a.len(), |i: int| sexp_of(a[i]))
}

/// The JSON values of S-expressions.
pub open spec fn jsons_of(items: Seq<Sexp>) -> Seq<Jv> {
    Seq::new(items.len(), |i: int| json_of(items[i]))
}

/// The keyword plist of an object's members.
pub open spec fn plist_of(es: Seq<(Seq<char>, Jv)>) -> Seq<Sexp> {
    Seq::new(
        2 * es.len(),
        |i: int|
            if i % 2 == 0 {
                Sexp::Keyword(seq![':'] + es[i / 2].0)
            } else {
                sexp_of(es[i / 2].1)
            },
    )
}

pub proof fn lemma_sexp_of_array(a: Seq<Jv>)
    ensures
        sexp_of(Jv::Array(a)) == Sexp::List(sexps_of(a)),
{
    assert(sexp_of(Jv::Array(a))->List_0 =~= sexps_of(a));
}

pub proof fn lemma_sexp_of_object(es: Seq<(Seq<char>, Jv)>)
    ensures
        sexp_of(Jv::Object(es)) == Sexp::List(plist_of(es)),
{
    assert(sexp_of(Jv::Object(es))->List_0 =~= plist_of(es));
}

pub proof fn lemma_json_of_list(items: Seq<Sexp>)
    ensures
        is_plist(items) ==> json_of(Sexp::List(items)) == Jv::Object(
            json::object(plist_members(items)),
        ),
        !is_plist(items) ==> json_of(Sexp::List(items)) == Jv::Array(jsons_of(items)),
{
    if !is_plist(items) {
        assert(json_of(Sexp::List(items))->Array_0 =~= jsons_of(items));
    }
}

/// Check if a list is a keyword plist (even length, alternating keywords and values).
fn is_keyword_plist(items: &Vec<SexpValue>) -> (r: bool)
    ensures
        r == is_plist(sexp::models(items@)),
{
    let ghost all = sexp::models(items@);
    if items.len() == 0 || items.len() % 2 != 0 {
        return false;
    }
    let mut i: usize = 0;
    while i < items.len()
        invariant
            all == sexp::models(items@),
            i <= items@.len(),
            i % 2 == 0,
            items.len() % 2 == 0,
            forall|j: int| 0 <= j < i && j % 2 == 0 ==> (#[trigger] all[j]) is Keyword,
        decreases items@.len() - i,
    {
        assert(all[i as int] == items@[i as int]@);
        if !matches!(&items[i], SexpValue::Keyword(_)) {
            return false;
        }
        i = i + 2;
    }
    true
}

/// The keyword's name without its colon.
fn key_of(name: &str) -> (r: String)
    ensures
        r@ == keyword_key(name@),
{
    let chars = text::to_chars(name);
    if chars.len() > 0 && chars[0] == ':' {
        let rest = vstd::slice::slice_subrange(chars.as_slice(), 1, chars.len());
        assert(rest@ =~= name@.skip(1));
        text::from_chars(rest)
    } else {
        name.to_string()
    }
}

impl SexpValue {
    /// Convert a JSON value to an S-expression:
    ///
    /// - JSON object to keyword plist `(:key1 val1 :key2 val2)`
    /// - JSON array to list `(val1 val2 val3)`
    /// - JSON string to string
    /// - JSON number to integer or float
    /// - JSON bool to t or nil
    /// - JSON null to nil
    pub fn from_json(value: &Json) -> (r: SexpValue)
        ensures
            r@ == sexp_of(value@),
        decreases value,
    {
        match value {
            Json::Null => SexpValue::Nil,
            Json::Bool(b) => if *b {
                SexpValue::Bool(true)
            } else {
                SexpValue::Nil
            },
            Json::Number(n) => match value.as_i64() {
                Some(i) => SexpValue::Integer(i),
                None => match n {
                    JsonNumber::PosInt(u) => {
                        let numeral = text::decimal_string(*u);
                        SexpValue::Float(sexp::held_numeral(numeral.as_str()))
                    },
                    JsonNumber::NegInt(i) => SexpValue::Integer(*i),
                    JsonNumber::Float(s) => SexpValue::Float(sexp::held_numeral(s.as_str())),
                },
            },
            Json::String(s) => SexpValue::String(s.clone()),
            Json::Array(a) => {
                let mut items: Vec<SexpValue> = Vec::new();
                let mut i: usize = 0;
                while i < a.len()
                    invariant
                        i <= a@.len(),
                        *value == Json::Array(*a),
                        items@.len() == i,
                        forall|j: int| 0 <= j < i ==> (#[trigger] items@[j])@ == sexp_of(a@[j]@),
                    decreases a@.len() - i,
                {
                    assert(decreases_to!(*value => value->Array_0));
                    assert(decreases_to!(a => a[i as int]));
                    items.push(SexpValue::from_json(&a[i]));
                    i = i + 1;
                }
                proof {
                    json::lemma_array_model(*a);
                    lemma_sexp_of_array(json::models(a@));
                    sexp::lemma_list_model(items);
                    assert(sexp::models(items@) =~= sexps_of(json::models(a@)));
                }
                SexpValue::List(items)
            },
            Json::Object(m) => {
                let mut items: Vec<SexpValue> = Vec::new();
                let mut i: usize = 0;
                while i < m.entries.len()
                    invariant
                        i <= m.entries@.len(),
                        *value == Json::Object(*m),
                        items@.len() == 2 * i,
                        forall|j: int|
                            0 <= j < 2 * i ==> (#[trigger] items@[j])@ == plist_of(m@)[j],
                    decreases m.entries@.len() - i,
                {
                    assert(decreases_to!(*value => value->Object_0));
                    assert(decreases_to!(value->Object_0 => value->Object_0.entries));
                    assert(decreases_to!(m.entries => m.entries[i as int]));
                    assert(decreases_to!(m.entries[i as int] => m.entries[i as int].1));
                    let e = &m.entries[i];
                    let mut name = String::new();
                    name.push(':');
                    name.append(e.0.as_str());
                    assert(name@ =~= seq![':'] + m@[i as int].0);
                    items.push(SexpValue::Keyword(name));
                    items.push(SexpValue::from_json(&e.1));
                    assert((2 * i) as int / 2 == i && (2 * i + 1) as int / 2 == i);
                    i = i + 1;
                }
                proof {
                    json::lemma_object_model(*m);
                    lemma_sexp_of_object(m@);
                    sexp::lemma_list_model(items);
                    assert(sexp::models(items@) =~= plist_of(m@));
                }
                SexpValue::List(items)
            },
        }
    }

    /// Convert an S-expression to a JSON value:
    ///
    /// - Keyword plist `(:key1 val1 :key2 val2)` to JSON object
    /// - Regular list `(val1 val2 val3)` to JSON array
    /// - String to JSON string
    /// - Integer to JSON number
    /// - Float to JSON number
    /// - Bool(true) and Symbol("t") to JSON true
    /// - Nil to JSON null
    pub fn to_json(&self) -> (r: Json)
        ensures
            r@ == json_of(self@),
        decreases self,
    {
        match self {
            SexpValue::Nil => Json::Null,
            SexpValue::Bool(b) => if *b {
                Json::Bool(true)
            } else {
                Json::Null
            },
            SexpValue::Integer(n) => Json::integer(*n),
            SexpValue::Float(s) => match float::number(s.as_str()) {
                Some(t) => Json::Number(JsonNumber::Float(t)),
                None => Json::Null,
            },
            SexpValue::String(s) => Json::String(s.clone()),
            SexpValue::Symbol(s) => if text::str_eq(s.as_str(), "t") {
                Json::Bool(true)
            } else if text::str_eq(s.as_str(), "nil") {
                Json::Null
            } else {
                Json::String(s.clone())
            },
            SexpValue::Keyword(s) => Json::String(s.clone()),
            SexpValue::Quoted(inner) => inner.to_json(),
            SexpValue::Cons(a, b) => {
                let mut pair: Vec<Json> = Vec::new();
                pair.push(a.to_json());
                pair.push(b.to_json());
                assert(json::models(pair@) =~= seq![json_of(a@), json_of(b@)]);
                Json::array(pair)
            },
            SexpValue::List(items) => {
                let ghost all = sexp::models(items@);
                proof {
                    sexp::lemma_list_model(*items);
                    lemma_json_of_list(all);
                }
                if is_keyword_plist(items) {
                    let mut m = JsonMap::new();
                    let ghost members = plist_members(all);
                    assert(members.take(0) =~= Seq::empty());
                    let mut i: usize = 0;
                    while i < items.len()
                        invariant
                            *self == SexpValue::List(*items),
                            all == sexp::models(items@),
                            is_plist(all),
                            members == plist_members(all),
                            i <= items@.len(),
                            i % 2 == 0,
                            m@ == json::object(members.take(i as int / 2)),
                        decreases items@.len() - i,
                    {
                        assert(all[i as int] is Keyword);
                        assert(decreases_to!(*self => self->List_0));
                        assert(decreases_to!(items => items[i + 1]));
                        if let SexpValue::Keyword(k) = &items[i] {
                            let key = key_of(k.as_str());
                            let value = items[i + 1].to_json();
                            m.insert(key.as_str(), value);
                            proof {
                                let h = i as int / 2;
                                assert(2 * h == i);
                                assert(all[2 * h] == items@[i as int]@);
                                assert(all[2 * h + 1] == items@[i + 1]@);
                                assert(members.take(h + 1).drop_last() =~= members.take(h));
                                assert(members.take(h + 1).last() == members[h]);
                                assert((i + 2) as int / 2 == h + 1);
                            }
                        }
                        i = i + 2;
                    }
                    assert(members.take(i as int / 2) =~= members);
                    Json::object(m)
                } else {
                    let mut a: Vec<Json> = Vec::new();
                    let mut i: usize = 0;
                    while i < items.len()
                        invariant
                            *self == SexpValue::List(*items),
                            all == sexp::models(items@),
                            i <= items@.len(),
                            a@.len() == i,
                            forall|j: int| 0 <= j < i ==> (#[trigger] a@[j])@ == json_of(all[j]),
                        decreases items@.len() - i,
                    {
                        assert(decreases_to!(*self => self->List_0));
                        assert(decreases_to!(items => items[i as int]));
                        a.push(items[i].to_json());
                        i = i + 1;
                    }
                    assert(json::models(a@) =~= jsons_of(all));
                    Json::array(a)
                }
            },
        }
    }
}

// ---------------------------------------------------------------------------
// Laws
// ---------------------------------------------------------------------------

/// JSON values that an S-expression holds exactly: no false, no empty object, whole numbers of
/// 64 bits with a sign, floats whose numeral is written again of the numeral that is held of them,
/// ascending keys.
pub open spec fn sexp_faithful(v: Jv) -> bool
    decreases v,
{
    match v {
        Jv::Null => true,
        Jv::Bool(b) => b,
        Jv::Number(n) => match n {
            Jn::PosInt(u) => u <= i64::MAX,
            Jn::NegInt(i) => i < 0,
            Jn::Float(s) => float::number_text(sexp::numeral_of(s)) == Some(s),
        },
        Jv::Str(_) => true,
        Jv::Array(a) => forall|i: int| 0 <= i < a.len() ==> sexp_faithful(#[trigger] a[i]),
        Jv::Object(es) => es.len() > 0 && json::ascending(es) && forall|i: int|
            0 <= i < es.len() ==> sexp_faithful((#[trigger] es[i]).1),
    }
}

proof fn lemma_insert_last(es: Seq<(Seq<char>, Jv)>, key: Seq<char>, value: Jv)
    requires
        forall|i: int| 0 <= i < es.len() ==> text::less((#[trigger] es[i]).0, key),
    ensures
        json::insert(es, key, value) == es.push((key, value)),
    decreases es.len(),
{
    if es.len() > 0 {
        assert(text::less(es[0].0, key));
        text::lemma_less_irreflexive(key);
        if text::less(key, es[0].0) {
            text::less_transitive(key, es[0].0, key);
        }
        assert forall|i: int| 0 <= i < es.skip(1).len() implies text::less(
            (#[trigger] es.skip(1)[i]).0,
            key,
        ) by {
            assert(es.skip(1)[i] == es[i + 1]);
        }
        lemma_insert_last(es.skip(1), key, value);
        assert(seq![es[0]] + es.skip(1).push((key, value)) =~= es.push((key, value)));
    } else {
        assert(es.push((key, value)) =~= seq![(key, value)]);
    }
}

/// An object whose keys ascend is what inserting its members one after another makes.
pub proof fn law_object_of_ascending(es: Seq<(Seq<char>, Jv)>)
    requires
        json::ascending(es),
    ensures
        json::object(es) == es,
    decreases es.len(),
{
    if es.len() > 0 {
        let front = es.drop_last();
        assert forall|i: int, j: int| 0 <= i < j < front.len() implies text::less(
            #[trigger] front[i].0,
            #[trigger] front[j].0,
        ) by {
            assert(text::less(es[i].0, es[j].0));
        }
        law_object_of_ascending(front);
        assert forall|i: int| 0 <= i < front.len() implies text::less(
            (#[trigger] front[i]).0,
            es.last().0,
        ) by {
            assert(text::less(es[i].0, es[es.len() - 1].0));
        }
        lemma_insert_last(front, es.last().0, es.last().1);
        assert(front.push(es.last()) =~= es);
    } else {
        assert(json::object(es) =~= es);
    }
}

/// A JSON value that an S-expression holds exactly comes back from it unchanged.
pub proof fn law_json_of_sexp_of(v: Jv)
    requires
        sexp_faithful(v),
    ensures
        json_of(sexp_of(v)) == v,
    decreases v,
{
    match v {
        Jv::Array(a) => {
            lemma_sexp_of_array(a);
            let items = sexps_of(a);
            lemma_json_of_list(items);
            if items.len() > 0 {
                assert(!(items[0] is Keyword));
            }
            assert forall|i: int| 0 <= i < a.len() implies json_of(#[trigger] items[i]) == a[i] by {
                law_json_of_sexp_of(a[i]);
            }
            assert(jsons_of(items) =~= a);
        },
        Jv::Object(es) => {
            lemma_sexp_of_object(es);
            let items = plist_of(es);
            lemma_json_of_list(items);
            assert(is_plist(items));
            let members = plist_members(items);
            assert forall|i: int| 0 <= i < es.len() implies #[trigger] members[i] == es[i] by {
                assert((2 * i) / 2 == i && (2 * i + 1) / 2 == i);
                assert((2 * i) % 2 == 0 && (2 * i + 1) % 2 == 1);
                law_json_of_sexp_of(es[i].1);
                assert((seq![':'] + es[i].0).skip(1) =~= es[i].0);
            }
            assert(members =~= es);
            law_object_of_ascending(es);
        },
        _ => {},
    }
}

} // verus!
