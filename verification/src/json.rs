//! A parsed JSON document as the client reads it: task parameters and the
//! messages of the backup server.
use vstd::prelude::*;

use crate::text::{chars_of, str_eq};

verus! {

/// A JSON number: its value where it is an integer that fits `i64` or `u64`,
/// and its text.
#[derive(Debug)]
pub struct JsonNumber {
    pub as_i64: Option<i64>,
    pub as_u64: Option<u64>,
    pub text: String,
}

/// A JSON value. Object members keep their order; a key occurs once.
#[derive(Debug)]
pub enum Json {
    Null,
    Bool(bool),
    Number(JsonNumber),
    Str(String),
    Array(Vec<Json>),
    Object(Vec<(String, Json)>),
}

/// The value of the first member named `key`.
pub open spec fn object_get(es: Seq<(String, Json)>, key: Seq<char>) -> Option<Json>
    decreases es.len(),
{
    if es.len() == 0 {
        None
    } else if es[0].0@ == key {
        Some(es[0].1)
    } else {
        object_get(es.drop_first(), key)
    }
}

/// The text of a string value.
pub open spec fn str_of(v: Option<Json>) -> Option<Seq<char>> {
    match v {
        Some(Json::Str(s)) => Some(s@),
        _ => None,
    }
}

/// A number that fits `u64`.
pub open spec fn u64_of(v: Option<Json>) -> Option<u64> {
    match v {
        Some(Json::Number(n)) => n.as_u64,
        _ => None,
    }
}

/// A number that fits `i64`.
pub open spec fn i64_of(v: Option<Json>) -> Option<i64> {
    match v {
        Some(Json::Number(n)) => n.as_i64,
        _ => None,
    }
}

/// A boolean value.
pub open spec fn bool_of(v: Option<Json>) -> Option<bool> {
    match v {
        Some(Json::Bool(b)) => Some(b),
        _ => None,
    }
}

/// The text behind an optional string slice.
pub open spec fn opt_str_view(o: Option<&str>) -> Option<Seq<char>> {
    match o {
        Some(s) => Some(s@),
        None => None,
    }
}

impl Json {
    /// The member `key` of an object (nothing for other values).
    pub open spec fn field(self, key: Seq<char>) -> Option<Json> {
        match self {
            Json::Object(es) => object_get(es@, key),
            _ => None,
        }
    }

    /// Looks up the member `key` of an object, as `Value::get` does.
    pub fn get(&self, key: &str) -> (r: Option<&Json>)
        ensures
            r.is_some() == self.field(key@).is_some(),
            r.is_some() ==> *r.unwrap() == self.field(key@).unwrap(),
    {
        match self {
            Json::Object(es) => {
                let mut i: usize = 0;
                assert(es@.skip(0) =~= es@);
                while i < es.len()
                    invariant
                        i <= es.len(),
                        self.field(key@) == object_get(es@, key@),
                        object_get(es@, key@) == object_get(es@.skip(i as int), key@),
                    decreases es.len() - i,
                {
                    assert(es@.skip(i as int)[0] == es@[i as int]);
                    assert(es@.skip(i as int).drop_first() =~= es@.skip(i + 1));
                    if str_eq(es[i].0.as_str(), key) {
                        return Some(&es[i].1);
                    }
                    i = i + 1;
                }
                assert(es@.skip(i as int).len() == 0);
                None
            },
            _ => None,
        }
    }

    /// The string member `key`.
    pub fn str_field(&self, key: &str) -> (r: Option<&str>)
        ensures
            opt_str_view(r) == str_of(self.field(key@)),
    {
        match self.get(key) {
            Some(Json::Str(s)) => Some(s.as_str()),
            _ => None,
        }
    }

    /// The member `key` when it is a number that fits `u64`.
    pub fn u64_field(&self, key: &str) -> (r: Option<u64>)
        ensures
            r == u64_of(self.field(key@)),
    {
        match self.get(key) {
            Some(Json::Number(n)) => n.as_u64,
            _ => None,
        }
    }

    /// The member `key` when it is a number that fits `i64`.
    pub fn i64_field(&self, key: &str) -> (r: Option<i64>)
        ensures
            r == i64_of(self.field(key@)),
    {
        match self.get(key) {
            Some(Json::Number(n)) => n.as_i64,
            _ => None,
        }
    }

    /// The member `key` when it is a boolean.
    pub fn bool_field(&self, key: &str) -> (r: Option<bool>)
        ensures
            r == bool_of(self.field(key@)),
    {
        match self.get(key) {
            Some(Json::Bool(b)) => Some(*b),
            _ => None,
        }
    }
}

/// Position of the first member named `key` (-1 when there is none).
pub open spec fn member_index(es: Seq<(String, Json)>, key: Seq<char>) -> int
    decreases es.len(),
{
    if es.len() == 0 {
        -1
    } else if es[0].0@ == key {
        0
    } else {
        let r = member_index(es.drop_first(), key);
        if r < 0 {
            -1
        } else {
            r + 1
        }
    }
}

/// `member_index` is the first position with the key, and `object_get` reads
/// the value there.
pub proof fn lemma_member_index(es: Seq<(String, Json)>, k: Seq<char>)
    ensures
        -1 <= member_index(es, k) < es.len(),
        member_index(es, k) >= 0 ==> es[member_index(es, k)].0@ == k && object_get(es, k) == Some(
            es[member_index(es, k)].1,
        ),
        forall|j: int|
            0 <= j < es.len() && (member_index(es, k) < 0 || j < member_index(es, k)) ==> (
            #[trigger] es[j]).0@ != k,
        member_index(es, k) < 0 ==> object_get(es, k) is None,
    decreases es.len(),
{
    if es.len() > 0 && es[0].0@ != k {
        let t = es.drop_first();
        lemma_member_index(t, k);
        assert forall|j: int|
            0 <= j < es.len() && (member_index(es, k) < 0 || j < member_index(es, k)) implies (
            #[trigger] es[j]).0@ != k by {
            if j > 0 {
                assert(es[j] == t[j - 1]);
            }
        }
    }
}

/// A position holding the key with no earlier one is `member_index`.
pub proof fn lemma_member_index_at(es: Seq<(String, Json)>, k: Seq<char>, i: int)
    requires
        0 <= i < es.len(),
        es[i].0@ == k,
        forall|j: int| 0 <= j < i ==> (#[trigger] es[j]).0@ != k,
    ensures
        member_index(es, k) == i,
{
    lemma_member_index(es, k);
    let m = member_index(es, k);
    if m < 0 {
        assert(es[i].0@ != k);
    } else if m < i {
        assert(es[m].0@ != k);
    } else if m > i {
        assert(es[i].0@ != k);
    }
}

/// Lookups agree on member lists with the same keys in the same places and the
/// same value at the key's place.
pub proof fn lemma_get_same_keys(a: Seq<(String, Json)>, b: Seq<(String, Json)>, k: Seq<char>)
    requires
        a.len() == b.len(),
        forall|j: int| 0 <= j < a.len() ==> (#[trigger] a[j]).0@ == b[j].0@,
        member_index(a, k) >= 0 ==> a[member_index(a, k)].1 == b[member_index(a, k)].1,
    ensures
        object_get(a, k) == object_get(b, k),
{
    lemma_member_index(a, k);
    lemma_member_index(b, k);
    let m = member_index(a, k);
    if m >= 0 {
        assert forall|j: int| 0 <= j < m implies (#[trigger] b[j]).0@ != k by {
            assert(a[j].0@ == b[j].0@);
        }
        assert(a[m].0@ == b[m].0@);
        lemma_member_index_at(b, k, m);
    } else {
        let mb = member_index(b, k);
        if mb >= 0 {
            assert(a[mb].0@ == b[mb].0@);
        }
    }
}

/// Sets the member `key` of an object's members to `value`: the first member
/// of that name is replaced in place, or a new one is appended.
pub fn set_member(es: &mut Vec<(String, Json)>, key: &str, value: Json)
    ensures
        object_get(final(es)@, key@) == Some(value),
        forall|k: Seq<char>| k != key@ ==> #[trigger] object_get(final(es)@, k) == object_get(
            old(es)@,
            k,
        ),
{
    let ghost old_es = es@;
    let mut i: usize = 0;
    let mut found = false;
    while i < es.len()
        invariant
            i <= es.len(),
            es@ == old_es,
            forall|j: int| 0 <= j < i ==> (#[trigger] old_es[j]).0@ != key@,
            found ==> i < es.len() && old_es[i as int].0@ == key@,
        ensures
            !found ==> i == es.len(),
            found ==> i < es.len() && old_es[i as int].0@ == key@,
            es@ == old_es,
            forall|j: int| 0 <= j < i ==> (#[trigger] old_es[j]).0@ != key@,
        decreases es.len() - i + (if found { 0int } else { 1int }),
    {
        if str_eq(es[i].0.as_str(), key) {
            found = true;
            break;
        }
        i = i + 1;
    }
    let name = crate::text::string_of(&chars_of(key));
    if found {
        es.set(i, (name, value));
        proof {
            lemma_member_index_at(old_es, key@, i as int);
            assert forall|k: Seq<char>| k != key@ implies object_get(es@, k) == object_get(
                old_es,
                k,
            ) by {
                lemma_member_index(old_es, k);
                lemma_get_same_keys(old_es, es@, k);
            }
            assert forall|j: int| 0 <= j < i implies (#[trigger] es@[j]).0@ != key@ by {
                assert(es@[j] == old_es[j]);
            }
            lemma_member_index_at(es@, key@, i as int);
            lemma_member_index(es@, key@);
        }
    } else {
        es.push((name, value));
        proof {
            let n = old_es.len() as int;
            assert forall|j: int| 0 <= j < n implies (#[trigger] es@[j]).0@ != key@ by {
                assert(es@[j] == old_es[j]);
            }
            lemma_member_index_at(es@, key@, n);
            lemma_member_index(es@, key@);
            assert forall|k: Seq<char>| k != key@ implies object_get(es@, k) == object_get(
                old_es,
                k,
            ) by {
                lemma_member_index(old_es, k);
                lemma_member_index(es@, k);
                let m = member_index(old_es, k);
                if m >= 0 {
                    assert forall|j: int| 0 <= j < m implies (#[trigger] es@[j]).0@ != k by {
                        assert(es@[j] == old_es[j]);
                    }
                    assert(es@[m] == old_es[m]);
                    lemma_member_index_at(es@, k, m);
                } else {
                    let mb = member_index(es@, k);
                    if mb >= 0 && mb < n {
                        assert(es@[mb] == old_es[mb]);
                    }
                }
            }
        }
    }
}

} // verus!
