//! A map from strings to values, kept in ascending key order (the order of
//! `String`'s `Ord`: UTF-8 bytes compare as code points do).
use vstd::prelude::*;

use crate::text::chars_of;

verus! {

/// Strict lexicographic order on character sequences.
pub open spec fn seq_lt(a: Seq<char>, b: Seq<char>) -> bool
    decreases a.len(),
{
    if a.len() == 0 {
        b.len() > 0
    } else if b.len() == 0 {
        false
    } else if a[0] == b[0] {
        seq_lt(a.drop_first(), b.drop_first())
    } else {
        (a[0] as u32) < (b[0] as u32)
    }
}

pub proof fn lemma_lt_irrefl(a: Seq<char>)
    ensures
        !seq_lt(a, a),
    decreases a.len(),
{
    if a.len() > 0 {
        lemma_lt_irrefl(a.drop_first());
    }
}

pub proof fn lemma_lt_trans(a: Seq<char>, b: Seq<char>, c: Seq<char>)
    requires
        seq_lt(a, b),
        seq_lt(b, c),
    ensures
        seq_lt(a, c),
    decreases a.len(),
{
    if a.len() > 0 && b.len() > 0 && c.len() > 0 {
        if a[0] == b[0] && b[0] == c[0] {
            lemma_lt_trans(a.drop_first(), b.drop_first(), c.drop_first());
        }
    }
}

pub proof fn lemma_lt_total(a: Seq<char>, b: Seq<char>)
    ensures
        a == b || seq_lt(a, b) || seq_lt(b, a),
    decreases a.len(),
{
    if a.len() > 0 && b.len() > 0 && a[0] == b[0] {
        lemma_lt_total(a.drop_first(), b.drop_first());
        assert(seq_lt(a, b) == seq_lt(a.drop_first(), b.drop_first()));
        assert(seq_lt(b, a) == seq_lt(b.drop_first(), a.drop_first()));
        if a.drop_first() == b.drop_first() {
            assert(a =~= seq![a[0]] + a.drop_first());
            assert(b =~= seq![b[0]] + b.drop_first());
        }
    } else if a.len() == 0 && b.len() == 0 {
        assert(a =~= b);
    } else if a.len() > 0 && b.len() > 0 {
        vstd::utf8::char_u32_cast(a[0], a[0] as u32);
        vstd::utf8::char_u32_cast(b[0], b[0] as u32);
        assert((a[0] as u32) != (b[0] as u32));
    }
}

pub proof fn lemma_lt_asym(a: Seq<char>, b: Seq<char>)
    requires
        seq_lt(a, b),
    ensures
        !seq_lt(b, a),
        a != b,
{
    if seq_lt(b, a) {
        lemma_lt_trans(a, b, a);
        lemma_lt_irrefl(a);
    }
    if a == b {
        lemma_lt_irrefl(a);
    }
}

/// Compares two character sequences: -1, 0 or 1.
pub fn compare_chars(a: &[char], b: &[char]) -> (r: i8)
    ensures
        r == 0 <==> a@ == b@,
        r < 0 <==> seq_lt(a@, b@),
        r > 0 <==> seq_lt(b@, a@),
{
    let mut i: usize = 0;
    assert(a@.skip(0) =~= a@);
    assert(b@.skip(0) =~= b@);
    assert(a@.take(0) =~= b@.take(0));
    while i < a.len() && i < b.len()
        invariant
            i <= a.len(),
            i <= b.len(),
            a@.take(i as int) == b@.take(i as int),
            seq_lt(a@, b@) == seq_lt(a@.skip(i as int), b@.skip(i as int)),
            seq_lt(b@, a@) == seq_lt(b@.skip(i as int), a@.skip(i as int)),
        decreases a.len() - i,
    {
        assert(a@.skip(i as int)[0] == a@[i as int]);
        assert(b@.skip(i as int)[0] == b@[i as int]);
        if a[i] != b[i] {
            proof {
                lemma_lt_asym_or(a@, b@, i as int);
                vstd::utf8::char_u32_cast(a@[i as int], a@[i as int] as u32);
                vstd::utf8::char_u32_cast(b@[i as int], b@[i as int] as u32);
                assert((a[i as int] as u32) != (b[i as int] as u32));
            }
            if (a[i] as u32) < (b[i] as u32) {
                proof {
                    lemma_lt_asym(a@, b@);
                }
                return -1;
            } else {
                proof {
                    lemma_lt_asym(b@, a@);
                }
                return 1;
            }
        }
        assert(a@.skip(i as int).drop_first() =~= a@.skip(i + 1));
        assert(b@.skip(i as int).drop_first() =~= b@.skip(i + 1));
        assert(a@.take(i + 1) =~= a@.take(i as int).push(a@[i as int]));
        assert(b@.take(i + 1) =~= b@.take(i as int).push(b@[i as int]));
        i = i + 1;
    }
    if a.len() == b.len() {
        assert(a@ =~= a@.take(i as int));
        assert(b@ =~= b@.take(i as int));
        proof {
            lemma_lt_irrefl(a@);
        }
        0
    } else if a.len() < b.len() {
        assert(a@.skip(i as int).len() == 0);
        assert(a@ =~= a@.take(i as int));
        proof {
            if a@ == b@ {
                assert(false);
            }
        }
        -1
    } else {
        assert(b@.skip(i as int).len() == 0);
        assert(b@ =~= b@.take(i as int));
        proof {
            if a@ == b@ {
                assert(false);
            }
        }
        1
    }
}

/// Sequences that agree before `i` and differ at `i` are ordered by that position.
proof fn lemma_lt_asym_or(a: Seq<char>, b: Seq<char>, i: int)
    requires
        0 <= i < a.len(),
        i < b.len(),
        a[i] != b[i],
    ensures
        a != b,
{
    if a == b {
        assert(a[i] == b[i]);
    }
}

pub open spec fn keys_sorted<V>(e: Seq<(String, V)>) -> bool {
    forall|i: int, j: int| 0 <= i < j < e.len() ==> seq_lt(#[trigger] e[i].0@, #[trigger] e[j].0@)
}

pub open spec fn to_map<V>(e: Seq<(String, V)>) -> Map<Seq<char>, V>
    decreases e.len(),
{
    if e.len() == 0 {
        Map::empty()
    } else {
        to_map(e.drop_last()).insert(e.last().0@, e.last().1)
    }
}

pub open spec fn key_seq<V>(e: Seq<(String, V)>) -> Seq<Seq<char>> {
    e.map_values(|p: (String, V)| p.0@)
}

/// What the map holds: present keys and their values.
pub proof fn lemma_to_map<V>(e: Seq<(String, V)>)
    requires
        keys_sorted(e),
    ensures
        forall|k: Seq<char>| #[trigger]
            to_map(e).dom().contains(k) <==> exists|i: int| 0 <= i < e.len() && e[i].0@ == k,
        forall|i: int| 0 <= i < e.len() ==> #[trigger] to_map(e)[e[i].0@] == e[i].1,
        to_map(e).dom().finite(),
    decreases e.len(),
{
    if e.len() > 0 {
        let d = e.drop_last();
        assert(keys_sorted(d)) by {
            assert forall|i: int, j: int| 0 <= i < j < d.len() implies seq_lt(
                #[trigger] d[i].0@,
                #[trigger] d[j].0@,
            ) by {
                assert(d[i] == e[i] && d[j] == e[j]);
            }
        }
        lemma_to_map(d);
        let m = to_map(e);
        assert forall|k: Seq<char>| #[trigger]
            m.dom().contains(k) <==> exists|i: int| 0 <= i < e.len() && e[i].0@ == k by {
            if m.dom().contains(k) && k != e.last().0@ {
                let i = choose|i: int| 0 <= i < d.len() && d[i].0@ == k;
                assert(e[i] == d[i]);
            }
            if exists|i: int| 0 <= i < e.len() && e[i].0@ == k {
                let i = choose|i: int| 0 <= i < e.len() && e[i].0@ == k;
                if i < d.len() {
                    assert(d[i] == e[i]);
                }
            }
        }
        assert forall|i: int| 0 <= i < e.len() implies #[trigger] m[e[i].0@] == e[i].1 by {
            if i < e.len() - 1 {
                assert(d[i] == e[i]);
                assert(seq_lt(e[i].0@, e[e.len() - 1].0@));
                lemma_lt_asym(e[i].0@, e[e.len() - 1].0@);
            }
        }
    }
}

/// A string-keyed map in ascending key order.
#[derive(Debug)]
pub struct StrMap<V> {
    entries: Vec<(String, V)>,
}

impl<V> StrMap<V> {
    #[verifier::type_invariant]
    closed spec fn wf(&self) -> bool {
        keys_sorted(self.entries@)
    }

    /// Key → value.
    pub closed spec fn map(&self) -> Map<Seq<char>, V> {
        to_map(self.entries@)
    }

    /// The keys in ascending order.
    pub closed spec fn keys(&self) -> Seq<Seq<char>> {
        key_seq(self.entries@)
    }

    /// The keys are strictly ascending and are exactly the map's keys.
    proof fn lemma_keys(&self)
        requires
            keys_sorted(self.entries@),
        ensures
            forall|i: int, j: int|
                0 <= i < j < self.keys().len() ==> seq_lt(
                    #[trigger] self.keys()[i],
                    #[trigger] self.keys()[j],
                ),
            forall|k: Seq<char>| #[trigger]
                self.map().dom().contains(k) <==> self.keys().contains(k),
            self.map().dom().finite(),
            self.keys().len() == self.map().dom().len(),
    {
        let e = self.entries@;
        lemma_to_map(e);
        let ks = key_seq(e);
        assert forall|k: Seq<char>| #[trigger] self.map().dom().contains(k) <==> ks.contains(k) by {
            if ks.contains(k) {
                let i = choose|i: int| 0 <= i < ks.len() && ks[i] == k;
                assert(e[i].0@ == k);
            }
            if self.map().dom().contains(k) {
                let i = choose|i: int| 0 <= i < e.len() && e[i].0@ == k;
                assert(ks[i] == k);
            }
        }
        assert forall|i: int, j: int| 0 <= i < j < ks.len() implies seq_lt(
            #[trigger] ks[i],
            #[trigger] ks[j],
        ) by {
            assert(ks[i] == e[i].0@ && ks[j] == e[j].0@);
        }
        assert(ks.no_duplicates()) by {
            assert forall|i: int, j: int| 0 <= i < ks.len() && 0 <= j < ks.len() && i != j implies ks[i]
                != ks[j] by {
                if i < j {
                    lemma_lt_asym(ks[i], ks[j]);
                } else {
                    lemma_lt_asym(ks[j], ks[i]);
                }
            }
        }
        ks.unique_seq_to_set();
        assert(ks.to_set() =~= self.map().dom());
    }

    pub fn new() -> (r: Self)
        ensures
            r.map() == Map::<Seq<char>, V>::empty(),
            r.keys().len() == 0,
    {
        StrMap { entries: Vec::new() }
    }

    pub fn len(&self) -> (r: usize)
        ensures
            r == self.map().dom().len(),
    {
        proof {
            use_type_invariant(&*self);
        }
        proof {
            self.lemma_keys();
        }
        self.entries.len()
    }

    pub fn is_empty(&self) -> (r: bool)
        ensures
            r == (self.map().dom().len() == 0),
    {
        proof {
            use_type_invariant(&*self);
        }
        proof {
            self.lemma_keys();
        }
        self.entries.len() == 0
    }

    /// Where `key` is, or where it would be inserted.
    fn position(&self, key: &[char]) -> (r: (usize, bool))
        ensures
            r.0 <= self.entries@.len(),
            forall|i: int| 0 <= i < r.0 ==> seq_lt(#[trigger] self.entries@[i].0@, key@),
            r.1 ==> r.0 < self.entries@.len() && self.entries@[r.0 as int].0@ == key@,
            !r.1 ==> forall|i: int|
                r.0 <= i < self.entries@.len() ==> seq_lt(key@, #[trigger] self.entries@[i].0@),
    {
        proof {
            use_type_invariant(&*self);
        }
        let mut i: usize = 0;
        while i < self.entries.len()
            invariant
                i <= self.entries@.len(),
                keys_sorted(self.entries@),
                forall|k: int| 0 <= k < i ==> seq_lt(#[trigger] self.entries@[k].0@, key@),
            decreases self.entries.len() - i,
        {
            let kc = chars_of(self.entries[i].0.as_str());
            let c = compare_chars(&kc, key);
            if c == 0 {
                return (i, true);
            }
            if c > 0 {
                proof {
                    assert forall|k: int| i <= k < self.entries@.len() implies seq_lt(
                        key@,
                        #[trigger] self.entries@[k].0@,
                    ) by {
                        if k > i {
                            lemma_lt_trans(key@, self.entries@[i as int].0@, self.entries@[k].0@);
                        }
                    }
                }
                return (i, false);
            }
            i = i + 1;
        }
        (i, false)
    }

    /// The value stored under `key`.
    pub fn get(&self, key: &str) -> (r: Option<&V>)
        ensures
            r matches Some(v) ==> self.map().dom().contains(key@) && self.map()[key@] == *v,
            r is None ==> !self.map().dom().contains(key@),
    {
        proof {
            use_type_invariant(&*self);
        }
        proof {
            lemma_to_map(self.entries@);
        }
        let kv = chars_of(key);
        let (i, found) = self.position(&kv);
        if found {
            Some(&self.entries[i].1)
        } else {
            proof {
                assert forall|j: int| 0 <= j < self.entries@.len() implies self.entries@[j].0@
                    != key@ by {
                    if j < i {
                        lemma_lt_asym(self.entries@[j].0@, key@);
                    } else {
                        lemma_lt_asym(key@, self.entries@[j].0@);
                    }
                }
            }
            None
        }
    }

    /// Stores `value` under `key`, replacing any value there.
    pub fn insert(&mut self, key: String, value: V)
        ensures
            final(self).map() == old(self).map().insert(key@, value),
    {
        proof {
            use_type_invariant(&*self);
        }
        proof {
            lemma_to_map(self.entries@);
        }
        let kv = chars_of(key.as_str());
        let (i, found) = self.position(&kv);
        let ghost old_e = self.entries@;
        let mut ents: Vec<(String, V)> = Vec::new();
        std::mem::swap(&mut ents, &mut self.entries);
        if found {
            ents.set(i, (key, value));
            proof {
                let e = ents@;
                assert(keys_sorted(e)) by {
                    assert forall|a: int, b: int| 0 <= a < b < e.len() implies seq_lt(
                        #[trigger] e[a].0@,
                        #[trigger] e[b].0@,
                    ) by {
                        assert(old_e[a].0@ == e[a].0@ || a == i);
                        assert(old_e[b].0@ == e[b].0@ || b == i);
                    }
                }
                lemma_to_map(e);
                assert(to_map(e) =~= to_map(old_e).insert(kv@, value)) by {
                    assert forall|k: Seq<char>| #[trigger] to_map(e).dom().contains(k) <==> to_map(
                        old_e,
                    ).insert(kv@, value).dom().contains(k) by {
                        if to_map(e).dom().contains(k) {
                            let j = choose|j: int| 0 <= j < e.len() && e[j].0@ == k;
                            if j != i {
                                assert(old_e[j] == e[j]);
                            }
                        }
                        if to_map(old_e).dom().contains(k) {
                            let j = choose|j: int| 0 <= j < old_e.len() && old_e[j].0@ == k;
                            if j != i {
                                assert(old_e[j] == e[j]);
                            } else {
                                assert(e[j].0@ == k);
                            }
                        }
                        if k == kv@ {
                            assert(e[i as int].0@ == k);
                        }
                    }
                    assert forall|k: Seq<char>| #[trigger] to_map(e).dom().contains(k) implies to_map(
                        e,
                    )[k] == to_map(old_e).insert(kv@, value)[k] by {
                        let j = choose|j: int| 0 <= j < e.len() && e[j].0@ == k;
                        if j != i {
                            assert(old_e[j] == e[j]);
                            if j < i {
                                lemma_lt_asym(e[j].0@, e[i as int].0@);
                            } else {
                                lemma_lt_asym(e[i as int].0@, e[j].0@);
                            }
                        }
                    }
                }
            }
        } else {
            ents.insert(i, (key, value));
            proof {
                let e = ents@;
                assert(keys_sorted(e)) by {
                    assert forall|a: int, b: int| 0 <= a < b < e.len() implies seq_lt(
                        #[trigger] e[a].0@,
                        #[trigger] e[b].0@,
                    ) by {
                        if a < i && b < i {
                            assert(e[a] == old_e[a] && e[b] == old_e[b]);
                        } else if a < i && b == i {
                            assert(e[a] == old_e[a]);
                        } else if a < i && b > i {
                            assert(e[a] == old_e[a] && e[b] == old_e[b - 1]);
                        } else if a == i {
                            assert(e[b] == old_e[b - 1]);
                        } else {
                            assert(e[a] == old_e[a - 1] && e[b] == old_e[b - 1]);
                        }
                    }
                }
                lemma_to_map(e);
                assert(to_map(e) =~= to_map(old_e).insert(kv@, value)) by {
                    assert forall|k: Seq<char>| #[trigger] to_map(e).dom().contains(k) <==> to_map(
                        old_e,
                    ).insert(kv@, value).dom().contains(k) by {
                        if to_map(e).dom().contains(k) {
                            let j = choose|j: int| 0 <= j < e.len() && e[j].0@ == k;
                            if j < i {
                                assert(old_e[j] == e[j]);
                            } else if j > i {
                                assert(old_e[j - 1] == e[j]);
                            }
                        }
                        if to_map(old_e).dom().contains(k) {
                            let j = choose|j: int| 0 <= j < old_e.len() && old_e[j].0@ == k;
                            if j < i {
                                assert(old_e[j] == e[j]);
                            } else {
                                assert(old_e[j] == e[j + 1]);
                            }
                        }
                        if k == kv@ {
                            assert(e[i as int].0@ == k);
                        }
                    }
                    assert forall|k: Seq<char>| #[trigger] to_map(e).dom().contains(k) implies to_map(
                        e,
                    )[k] == to_map(old_e).insert(kv@, value)[k] by {
                        let j = choose|j: int| 0 <= j < e.len() && e[j].0@ == k;
                        if j < i {
                            assert(old_e[j] == e[j]);
                            lemma_lt_asym(old_e[j].0@, kv@);
                        } else if j > i {
                            assert(old_e[j - 1] == e[j]);
                            lemma_lt_asym(kv@, old_e[j - 1].0@);
                        }
                    }
                }
            }
        }
        self.entries = ents;
    }

    /// Takes the value stored under `key` out of the map.
    pub fn remove(&mut self, key: &str) -> (r: Option<V>)
        ensures
            final(self).map() == old(self).map().remove(key@),
            r matches Some(v) ==> old(self).map().dom().contains(key@) && old(self).map()[key@]
                == v,
            r is None ==> !old(self).map().dom().contains(key@),
    {
        proof {
            use_type_invariant(&*self);
        }
        proof {
            lemma_to_map(self.entries@);
        }
        let kv = chars_of(key);
        let (i, found) = self.position(&kv);
        let ghost old_e = self.entries@;
        if !found {
            proof {
                assert forall|j: int| 0 <= j < old_e.len() implies old_e[j].0@ != key@ by {
                    if j < i {
                        lemma_lt_asym(old_e[j].0@, key@);
                    } else {
                        lemma_lt_asym(key@, old_e[j].0@);
                    }
                }
                assert(to_map(old_e).remove(key@) =~= to_map(old_e));
            }
            return None;
        }
        let mut ents: Vec<(String, V)> = Vec::new();
        std::mem::swap(&mut ents, &mut self.entries);
        let (_, v) = ents.remove(i);
        proof {
            let e = ents@;
            assert(keys_sorted(e)) by {
                assert forall|a: int, b: int| 0 <= a < b < e.len() implies seq_lt(
                    #[trigger] e[a].0@,
                    #[trigger] e[b].0@,
                ) by {
                    if b < i {
                        assert(e[a] == old_e[a] && e[b] == old_e[b]);
                    } else if a < i {
                        assert(e[a] == old_e[a] && e[b] == old_e[b + 1]);
                    } else {
                        assert(e[a] == old_e[a + 1] && e[b] == old_e[b + 1]);
                    }
                }
            }
            lemma_to_map(e);
            assert(to_map(e) =~= to_map(old_e).remove(key@)) by {
                assert forall|k: Seq<char>| #[trigger] to_map(e).dom().contains(k) <==> to_map(
                    old_e,
                ).remove(key@).dom().contains(k) by {
                    if to_map(e).dom().contains(k) {
                        let j = choose|j: int| 0 <= j < e.len() && e[j].0@ == k;
                        if j < i {
                            assert(old_e[j] == e[j]);
                            lemma_lt_asym(old_e[j].0@, key@);
                        } else {
                            assert(old_e[j + 1] == e[j]);
                            assert(seq_lt(old_e[i as int].0@, old_e[j + 1].0@));
                            lemma_lt_asym(key@, old_e[j + 1].0@);
                        }
                    }
                    if to_map(old_e).dom().contains(k) && k != key@ {
                        let j = choose|j: int| 0 <= j < old_e.len() && old_e[j].0@ == k;
                        if j < i {
                            assert(old_e[j] == e[j]);
                        } else if j > i {
                            assert(old_e[j] == e[j - 1]);
                        }
                    }
                }
                assert forall|k: Seq<char>| #[trigger] to_map(e).dom().contains(k) implies to_map(
                    e,
                )[k] == to_map(old_e).remove(key@)[k] by {
                    let j = choose|j: int| 0 <= j < e.len() && e[j].0@ == k;
                    if j < i {
                        assert(old_e[j] == e[j]);
                    } else {
                        assert(old_e[j + 1] == e[j]);
                    }
                }
            }
        }
        self.entries = ents;
        Some(v)
    }

    /// The keys, in ascending order.
    pub fn key_strings(&self) -> (r: Vec<String>)
        ensures
            r@.map_values(|s: String| s@) == self.keys(),
            forall|i: int, j: int|
                0 <= i < j < self.keys().len() ==> seq_lt(
                    #[trigger] self.keys()[i],
                    #[trigger] self.keys()[j],
                ),
            forall|k: Seq<char>| #[trigger]
                self.map().dom().contains(k) <==> self.keys().contains(k),
            self.keys().len() == self.map().dom().len(),
    {
        proof {
            use_type_invariant(&*self);
            self.lemma_keys();
        }
        let mut out: Vec<String> = Vec::new();
        let mut i: usize = 0;
        while i < self.entries.len()
            invariant
                i <= self.entries@.len(),
                out@.map_values(|s: String| s@) == key_seq(self.entries@).take(i as int),
            decreases self.entries.len() - i,
        {
            let k = chars_of(self.entries[i].0.as_str());
            let ghost before = out@.map_values(|s: String| s@);
            out.push(crate::text::string_of(&k));
            proof {
                assert(out@.map_values(|s: String| s@) =~= before.push(self.entries@[i as int].0@));
                assert(key_seq(self.entries@).take(i + 1) =~= key_seq(self.entries@).take(
                    i as int,
                ).push(self.entries@[i as int].0@));
            }
            i = i + 1;
        }
        assert(key_seq(self.entries@).take(i as int) =~= key_seq(self.entries@));
        out
    }

    /// The value stored at the `i`-th key in ascending order.
    pub fn value_at(&self, i: usize) -> (r: &V)
        requires
            i < self.keys().len(),
        ensures
            *r == self.map()[self.keys()[i as int]],
            self.map().dom().contains(self.keys()[i as int]),
    {
        proof {
            use_type_invariant(&*self);
            lemma_to_map(self.entries@);
            assert(self.keys()[i as int] == self.entries@[i as int].0@);
        }
        &self.entries[i].1
    }

    /// The number of keys, the same as the map's size.
    pub fn key_count(&self) -> (r: usize)
        ensures
            r == self.keys().len(),
            r == self.map().dom().len(),
            forall|k: Seq<char>| #[trigger]
                self.map().dom().contains(k) <==> self.keys().contains(k),
            forall|i: int, j: int|
                0 <= i < j < self.keys().len() ==> seq_lt(
                    #[trigger] self.keys()[i],
                    #[trigger] self.keys()[j],
                ),
    {
        proof {
            use_type_invariant(&*self);
            self.lemma_keys();
        }
        self.entries.len()
    }
}

} // verus!
