//! A JSON document model, lookups that follow `serde_json::Value`'s
//! accessors, and the compact and pretty renderings of a document.
use vstd::prelude::*;

use crate::text::{decimal, owned, str_eq, u64_text};

verus! {

broadcast use vstd::std_specs::vec::group_vec_axioms;

/// The mathematical value of a JSON document.
///
/// Numbers keep their textual form and, where they are non-negative
/// integers that fit, their `u64` value. Objects keep their keys and their
/// values as two sequences of the same length, in the order given; a lookup
/// by key finds the first member with that key. A document read through
/// `serde_json::Value` (without its `preserve_order` feature) has its keys
/// sorted and each key once, so there the first member is the only one and
/// the order is the one `serde_json` writes.
#[verifier::ext_equal]
pub enum JsonV {
    Null,
    Bool(bool),
    Number(Seq<char>, Option<u64>),
    Str(Seq<char>),
    Array(Seq<JsonV>),
    Object(Seq<Seq<char>>, Seq<JsonV>),
}

/// A JSON number: its textual form and, when it is a non-negative integer
/// that fits, its value as a `u64`.
pub struct JsonNumber {
    pub text: String,
    pub unsigned: Option<u64>,
}

/// A JSON document.
pub enum Json {
    Null,
    Bool(bool),
    Number(JsonNumber),
    Str(String),
    Array(Vec<Json>),
    Object(Vec<(String, Json)>),
}

/// The values of a sequence of documents.
pub open spec fn items_view(s: Seq<Json>) -> Seq<JsonV>
    decreases s,
{
    if s.len() == 0 {
        Seq::empty()
    } else {
        items_view(s.drop_last()).push(json_view(s.last()))
    }
}

/// The values of a sequence of object members.
pub open spec fn member_values(s: Seq<(String, Json)>) -> Seq<JsonV>
    decreases s,
{
    if s.len() == 0 {
        Seq::empty()
    } else {
        member_values(s.drop_last()).push(json_view(s.last().1))
    }
}

/// The keys of a sequence of object members.
pub open spec fn member_keys(s: Seq<(String, Json)>) -> Seq<Seq<char>> {
    Seq::new(s.len(), |i: int| s[i].0@)
}

/// The value of a document.
pub open spec fn json_view(j: Json) -> JsonV
    decreases j,
{
    match j {
        Json::Null => JsonV::Null,
        Json::Bool(b) => JsonV::Bool(b),
        Json::Number(n) => JsonV::Number(n.text@, n.unsigned),
        Json::Str(s) => JsonV::Str(s@),
        Json::Array(v) => JsonV::Array(items_view(v@)),
        Json::Object(m) => JsonV::Object(member_keys(m@), member_values(m@)),
    }
}

impl View for Json {
    type V = JsonV;

    open spec fn view(&self) -> JsonV {
        json_view(*self)
    }
}

/// `items_view` maps each document to its value.
pub proof fn lemma_items_view(s: Seq<Json>)
    ensures
        items_view(s).len() == s.len(),
        forall|k: int| 0 <= k < s.len() ==> #[trigger] items_view(s)[k] == s[k]@,
    decreases s.len(),
{
    if s.len() > 0 {
        lemma_items_view(s.drop_last());
        assert forall|k: int| 0 <= k < s.len() implies #[trigger] items_view(s)[k] == s[k]@ by {
            if k < s.len() - 1 {
                assert(s.drop_last()[k] == s[k]);
            }
        }
    }
}

/// `member_values` maps each member to the value of its document.
pub proof fn lemma_member_values(s: Seq<(String, Json)>)
    ensures
        member_values(s).len() == s.len(),
        forall|k: int| 0 <= k < s.len() ==> #[trigger] member_values(s)[k] == s[k].1@,
    decreases s.len(),
{
    if s.len() > 0 {
        lemma_member_values(s.drop_last());
        assert forall|k: int| 0 <= k < s.len() implies #[trigger] member_values(s)[k]
            == s[k].1@ by {
            if k < s.len() - 1 {
                assert(s.drop_last()[k] == s[k]);
            }
        }
    }
}

/// Whether `i` is the position of the first occurrence of `key` in `keys`.
pub open spec fn first_key_at(keys: Seq<Seq<char>>, key: Seq<char>, i: int) -> bool {
    &&& 0 <= i < keys.len()
    &&& keys[i] == key
    &&& forall|j: int| 0 <= j < i ==> keys[j] != key
}

/// The position of the first occurrence of `key` in `keys`, or -1.
pub open spec fn key_pos(keys: Seq<Seq<char>>, key: Seq<char>) -> int {
    if exists|i: int| first_key_at(keys, key, i) {
        choose|i: int| first_key_at(keys, key, i)
    } else {
        -1
    }
}

/// The member `key` of an object; `None` for a missing key or a value that
/// is not an object (as `serde_json::Value::get` with a string key).
pub open spec fn member(v: JsonV, key: Seq<char>) -> Option<JsonV> {
    match v {
        JsonV::Object(keys, vals) => {
            let p = key_pos(keys, key);
            if 0 <= p < vals.len() {
                Some(vals[p])
            } else {
                None
            }
        },
        _ => None,
    }
}

/// The member `key`, or `null` when there is none (as indexing a
/// `serde_json::Value` with a string).
pub open spec fn at(v: JsonV, key: Seq<char>) -> JsonV {
    match member(v, key) {
        Some(x) => x,
        None => JsonV::Null,
    }
}

pub open spec fn str_of(v: JsonV) -> Option<Seq<char>> {
    match v {
        JsonV::Str(s) => Some(s),
        _ => None,
    }
}

pub open spec fn u64_of(v: JsonV) -> Option<u64> {
    match v {
        JsonV::Number(_, u) => u,
        _ => None,
    }
}

pub open spec fn bool_of(v: JsonV) -> Option<bool> {
    match v {
        JsonV::Bool(b) => Some(b),
        _ => None,
    }
}

pub open spec fn array_of(v: JsonV) -> Option<Seq<JsonV>> {
    match v {
        JsonV::Array(items) => Some(items),
        _ => None,
    }
}

pub proof fn lemma_first_key_unique(keys: Seq<Seq<char>>, key: Seq<char>, i: int)
    requires
        first_key_at(keys, key, i),
    ensures
        key_pos(keys, key) == i,
{
    let p = key_pos(keys, key);
    assert(first_key_at(keys, key, p));
    if p < i {
        assert(keys[p] != key);
    }
    if p > i {
        assert(keys[i] != key);
    }
}

impl Json {
    /// A string value.
    pub fn str_value(s: &str) -> (r: Json)
        ensures
            r@ == JsonV::Str(s@),
    {
        Json::Str(owned(s))
    }

    /// A non-negative integer value.
    pub fn u64_value(n: u64) -> (r: Json)
        ensures
            r@ == JsonV::Number(decimal(n as nat), Some(n)),
    {
        Json::Number(JsonNumber { text: u64_text(n), unsigned: Some(n) })
    }

    /// A deep copy of the document.
    #[verifier::loop_isolation(false)]
    pub fn duplicate(&self) -> (r: Json)
        ensures
            r@ == self@,
        decreases self,
    {
        match self {
            Json::Null => Json::Null,
            Json::Bool(b) => Json::Bool(*b),
            Json::Number(n) => Json::Number(
                JsonNumber { text: n.text.clone(), unsigned: n.unsigned },
            ),
            Json::Str(s) => Json::Str(s.clone()),
            Json::Array(v) => {
                let out = duplicate_items(v);
                Json::Array(out)
            },
            Json::Object(m) => {
                let mut out: Vec<(String, Json)> = Vec::new();
                let mut i: usize = 0;
                while i < m.len()
                    invariant
                        i <= m.len(),
                        out.len() == i,
                        forall|k: int| 0 <= k < i ==> #[trigger] out@[k].0@ == m@[k].0@,
                        forall|k: int| 0 <= k < i ==> #[trigger] out@[k].1@ == m@[k].1@,
                    decreases m.len() - i,
                {
                    let c = m[i].1.duplicate();
                    out.push((m[i].0.clone(), c));
                    i = i + 1;
                }
                proof {
                    lemma_member_values(out@);
                    lemma_member_values(m@);
                    assert(member_keys(out@) =~= member_keys(m@));
                    assert(member_values(out@) =~= member_values(m@));
                }
                Json::Object(out)
            },
        }
    }

    /// The member `key` of an object, if there is one.
    pub fn get(&self, key: &str) -> (r: Option<&Json>)
        ensures
            r is Some <==> member(self@, key@) is Some,
            r matches Some(x) ==> member(self@, key@) == Some(x@),
    {
        match self {
            Json::Object(m) => {
                let mut i: usize = 0;
                while i < m.len()
                    invariant
                        *self == Json::Object(*m),
                        i <= m.len(),
                        forall|j: int| 0 <= j < i ==> m@[j].0@ != key@,
                    decreases m.len() - i,
                {
                    if str_eq(m[i].0.as_str(), key) {
                        proof {
                            lemma_member_values(m@);
                            let keys = self@->Object_0;
                            assert(keys[i as int] == key@);
                            assert forall|j: int| 0 <= j < i implies keys[j] != key@ by {
                                assert(keys[j] == m@[j].0@);
                            }
                            lemma_first_key_unique(keys, key@, i as int);
                        }
                        return Some(&m[i].1);
                    }
                    i = i + 1;
                }
                proof {
                    let keys = self@->Object_0;
                    if exists|p: int| first_key_at(keys, key@, p) {
                        let p = choose|p: int| first_key_at(keys, key@, p);
                        assert(keys[p] == m@[p].0@);
                    }
                }
                None
            },
            _ => None,
        }
    }

    /// The text of a string value.
    pub fn as_str(&self) -> (r: Option<&String>)
        ensures
            r is Some <==> str_of(self@) is Some,
            r matches Some(s) ==> str_of(self@) == Some(s@),
    {
        match self {
            Json::Str(s) => Some(s),
            _ => None,
        }
    }

    /// The value of a non-negative integer that fits in a `u64`.
    pub fn as_u64(&self) -> (r: Option<u64>)
        ensures
            r == u64_of(self@),
    {
        match self {
            Json::Number(n) => n.unsigned,
            _ => None,
        }
    }

    /// The value of a boolean.
    pub fn as_bool(&self) -> (r: Option<bool>)
        ensures
            r == bool_of(self@),
    {
        match self {
            Json::Bool(b) => Some(*b),
            _ => None,
        }
    }

    /// The items of an array.
    pub fn as_array(&self) -> (r: Option<&Vec<Json>>)
        ensures
            r is Some <==> array_of(self@) is Some,
            r matches Some(v) ==> array_of(self@) == Some(items_view(v@)),
    {
        match self {
            Json::Array(v) => Some(v),
            _ => None,
        }
    }
}


/// A deep copy of a sequence of documents.
#[verifier::loop_isolation(false)]
pub fn duplicate_items(v: &Vec<Json>) -> (r: Vec<Json>)
    ensures
        items_view(r@) == items_view(v@),
        r.len() == v.len(),
    decreases v,
{
    let mut out: Vec<Json> = Vec::new();
    let mut i: usize = 0;
    while i < v.len()
        invariant
            i <= v.len(),
            out.len() == i,
            forall|k: int| 0 <= k < i ==> #[trigger] out@[k]@ == v@[k]@,
        decreases v.len() - i,
    {
        let c = v[i].duplicate();
        out.push(c);
        i = i + 1;
    }
    proof {
        lemma_items_view(out@);
        lemma_items_view(v@);
        assert(items_view(out@) =~= items_view(v@));
    }
    out
}

} // verus!

verus! {

/// An object with one member.
pub fn obj1(k1: &str, v1: Json) -> (r: Json)
    ensures
        r@ == JsonV::Object(seq![k1@], seq![v1@]),
{
    let ghost g1 = v1@;
    let m = vec![(owned(k1), v1)];
    proof {
        lemma_member_values(m@);
        assert(member_keys(m@) =~= seq![k1@]);
        assert(member_values(m@) =~= seq![g1]);
    }
    Json::Object(m)
}

/// An object with two members, in the given order.
pub fn obj2(k1: &str, v1: Json, k2: &str, v2: Json) -> (r: Json)
    ensures
        r@ == JsonV::Object(seq![k1@, k2@], seq![v1@, v2@]),
{
    let ghost g1 = v1@;
    let ghost g2 = v2@;
    let m = vec![(owned(k1), v1), (owned(k2), v2)];
    proof {
        lemma_member_values(m@);
        assert(member_keys(m@) =~= seq![k1@, k2@]);
        assert(member_values(m@) =~= seq![g1, g2]);
    }
    Json::Object(m)
}

/// An object with three members, in the given order.
pub fn obj3(k1: &str, v1: Json, k2: &str, v2: Json, k3: &str, v3: Json) -> (r: Json)
    ensures
        r@ == JsonV::Object(seq![k1@, k2@, k3@], seq![v1@, v2@, v3@]),
{
    let ghost g1 = v1@;
    let ghost g2 = v2@;
    let ghost g3 = v3@;
    let m = vec![(owned(k1), v1), (owned(k2), v2), (owned(k3), v3)];
    proof {
        lemma_member_values(m@);
        assert(member_keys(m@) =~= seq![k1@, k2@, k3@]);
        assert(member_values(m@) =~= seq![g1, g2, g3]);
    }
    Json::Object(m)
}

/// An object with four members, in the given order.
pub fn obj4(k1: &str, v1: Json, k2: &str, v2: Json, k3: &str, v3: Json, k4: &str, v4: Json) -> (r:
    Json)
    ensures
        r@ == JsonV::Object(seq![k1@, k2@, k3@, k4@], seq![v1@, v2@, v3@, v4@]),
{
    let ghost g1 = v1@;
    let ghost g2 = v2@;
    let ghost g3 = v3@;
    let ghost g4 = v4@;
    let m = vec![(owned(k1), v1), (owned(k2), v2), (owned(k3), v3), (owned(k4), v4)];
    proof {
        lemma_member_values(m@);
        assert(member_keys(m@) =~= seq![k1@, k2@, k3@, k4@]);
        assert(member_values(m@) =~= seq![g1, g2, g3, g4]);
    }
    Json::Object(m)
}

/// An array with one item.
pub fn arr1(v1: Json) -> (r: Json)
    ensures
        r@ == JsonV::Array(seq![v1@]),
{
    let ghost g1 = v1@;
    let v = vec![v1];
    proof {
        lemma_items_view(v@);
        assert(items_view(v@) =~= seq![g1]);
    }
    Json::Array(v)
}

/// An array with two items.
pub fn arr2(v1: Json, v2: Json) -> (r: Json)
    ensures
        r@ == JsonV::Array(seq![v1@, v2@]),
{
    let ghost g1 = v1@;
    let ghost g2 = v2@;
    let v = vec![v1, v2];
    proof {
        lemma_items_view(v@);
        assert(items_view(v@) =~= seq![g1, g2]);
    }
    Json::Array(v)
}

} // verus!

verus! {

/// An object without members.
pub fn empty_object() -> (r: Json)
    ensures
        r@ == JsonV::Object(Seq::empty(), Seq::empty()),
{
    let m: Vec<(String, Json)> = Vec::new();
    assert(member_keys(m@) =~= Seq::<Seq<char>>::empty());
    Json::Object(m)
}

/// The object with one more member at its end.
pub fn with_member(o: Json, k: &str, v: Json) -> (r: Json)
    requires
        o@ is Object,
    ensures
        r@ == JsonV::Object(o@->Object_0.push(k@), o@->Object_1.push(v@)),
{
    match o {
        Json::Object(mut m) => {
            let ghost before = m@;
            let ghost vv = v@;
            m.push((owned(k), v));
            proof {
                assert(m@.drop_last() =~= before);
                assert(member_keys(m@) =~= member_keys(before).push(k@));
            }
            Json::Object(m)
        },
        _ => {
            proof {
                assert(false);
            }
            empty_object()
        },
    }
}

/// A deep copy of an optional document.
pub fn duplicate_opt(v: &Option<Json>) -> (r: Option<Json>)
    ensures
        opt_json_view(r) == opt_json_view(*v),
{
    match v {
        Some(j) => Some(j.duplicate()),
        None => None,
    }
}

/// The value of an optional document.
pub open spec fn opt_json_view(v: Option<Json>) -> Option<JsonV> {
    match v {
        Some(j) => Some(j@),
        None => None,
    }
}

} // verus!
