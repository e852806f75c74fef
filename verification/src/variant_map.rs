//! A map from variant name to weight that keeps its names in ascending
//! order, as a `BTreeMap<String, i32>` does: iterating it visits the names
//! sorted, whatever order they were inserted in.
use vstd::prelude::*;
use crate::text::chars_of;

verus! {

// ─── Name order ─────────────────────────────────────────────────────────────

/// `a < b` in the order of `String`'s `Ord`: lexicographic by code point
/// (the order of their UTF-8 bytes).
pub open spec fn key_lt(a: Seq<char>, b: Seq<char>) -> bool
    decreases a.len(),
{
    if a.len() == 0 {
        b.len() > 0
    } else if b.len() == 0 {
        false
    } else if (a[0] as u32) < (b[0] as u32) {
        true
    } else if a[0] == b[0] {
        key_lt(a.drop_first(), b.drop_first())
    } else {
        false
    }
}

/// Keys in strictly ascending order (hence without repetition).
pub open spec fn sorted_keys(s: Seq<(Seq<char>, i32)>) -> bool {
    forall|i: int, j: int| 0 <= i < j < s.len() ==> key_lt(#[trigger] s[i].0, #[trigger] s[j].0)
}

/// The map that collecting `pairs` into a `BTreeMap` builds: a later pair
/// replaces an earlier one with the same key.
pub open spec fn pairs_to_map(pairs: Seq<(Seq<char>, i32)>) -> Map<Seq<char>, i32>
    decreases pairs.len(),
{
    if pairs.len() == 0 {
        Map::empty()
    } else {
        pairs_to_map(pairs.drop_last()).insert(pairs.last().0, pairs.last().1)
    }
}

pub proof fn lemma_key_lt_irreflexive(a: Seq<char>)
    ensures
        !key_lt(a, a),
    decreases a.len(),
{
    if a.len() > 0 {
        lemma_key_lt_irreflexive(a.drop_first());
    }
}

pub proof fn lemma_key_lt_transitive(a: Seq<char>, b: Seq<char>, c: Seq<char>)
    requires
        key_lt(a, b),
        key_lt(b, c),
    ensures
        key_lt(a, c),
    decreases a.len(),
{
    if a.len() > 0 && b.len() > 0 && c.len() > 0 && a[0] == b[0] && b[0] == c[0] {
        lemma_key_lt_transitive(a.drop_first(), b.drop_first(), c.drop_first());
    }
}

pub proof fn lemma_key_lt_total(a: Seq<char>, b: Seq<char>)
    ensures
        a == b || key_lt(a, b) || key_lt(b, a),
    decreases a.len(),
{
    if a.len() > 0 && b.len() > 0 {
        if a[0] == b[0] {
            lemma_key_lt_total(a.drop_first(), b.drop_first());
            if a.drop_first() == b.drop_first() {
                assert(a =~= seq![a[0]] + a.drop_first());
                assert(b =~= seq![b[0]] + b.drop_first());
            }
        } else {
            if (a[0] as u32) == (b[0] as u32) {
                let u = a[0] as u32;
                vstd::utf8::char_u32_cast(a[0], u);
                vstd::utf8::char_u32_cast(b[0], u);
            }
        }
    } else if a.len() == 0 && b.len() == 0 {
        assert(a =~= b);
    }
}

pub proof fn lemma_key_lt_asymmetric(a: Seq<char>, b: Seq<char>)
    requires
        key_lt(a, b),
    ensures
        !key_lt(b, a),
{
    if key_lt(b, a) {
        lemma_key_lt_transitive(a, b, a);
        lemma_key_lt_irreflexive(a);
    }
}

/// In a sorted sequence the map holds exactly the listed keys, each with its value.
pub proof fn lemma_sorted_map(s: Seq<(Seq<char>, i32)>)
    requires
        sorted_keys(s),
    ensures
        forall|i: int|
            0 <= i < s.len() ==> #[trigger] pairs_to_map(s).contains_key(s[i].0)
                && pairs_to_map(s)[s[i].0] == s[i].1,
        forall|k: Seq<char>|
            #[trigger] pairs_to_map(s).contains_key(k) ==> exists|i: int|
                0 <= i < s.len() && s[i].0 == k,
    decreases s.len(),
{
    if s.len() > 0 {
        let t = s.drop_last();
        assert(sorted_keys(t)) by {
            assert forall|i: int, j: int| 0 <= i < j < t.len() implies key_lt(
                #[trigger] t[i].0,
                #[trigger] t[j].0,
            ) by {
                assert(t[i] == s[i] && t[j] == s[j]);
            }
        }
        lemma_sorted_map(t);
        let n = s.len() - 1;
        assert(s.last() == s[n]);
        assert(pairs_to_map(s) == pairs_to_map(t).insert(s[n].0, s[n].1));
        assert forall|i: int| 0 <= i < s.len() implies #[trigger] pairs_to_map(s).contains_key(
            s[i].0,
        ) && pairs_to_map(s)[s[i].0] == s[i].1 by {
            if i < n {
                assert(key_lt(s[i].0, s[n].0));
                lemma_key_lt_irreflexive(s[n].0);
                assert(t[i] == s[i]);
                assert(pairs_to_map(t).contains_key(t[i].0));
            }
        }
        assert forall|k: Seq<char>| #[trigger] pairs_to_map(s).contains_key(k) implies exists|i: int|
            0 <= i < s.len() && s[i].0 == k by {
            if k != s[n].0 {
                assert(pairs_to_map(t).contains_key(k));
                let i = choose|i: int| 0 <= i < t.len() && t[i].0 == k;
                assert(s[i] == t[i]);
            }
        }
    }
}

/// Two sorted sequences with the same map are the same sequence.
pub proof fn lemma_sorted_unique(s: Seq<(Seq<char>, i32)>, t: Seq<(Seq<char>, i32)>)
    requires
        sorted_keys(s),
        sorted_keys(t),
        pairs_to_map(s) == pairs_to_map(t),
    ensures
        s == t,
    decreases s.len() + t.len(),
{
    lemma_sorted_map(s);
    lemma_sorted_map(t);
    if s.len() == 0 && t.len() > 0 {
        assert(pairs_to_map(t).contains_key(t[0].0));
    } else if t.len() == 0 && s.len() > 0 {
        assert(pairs_to_map(s).contains_key(s[0].0));
    } else if s.len() > 0 && t.len() > 0 {
        let ls = s.len() - 1;
        let lt = t.len() - 1;
        // The largest keys agree.
        assert(pairs_to_map(t).contains_key(s[ls].0));
        let j = choose|j: int| 0 <= j < t.len() && t[j].0 == s[ls].0;
        assert(pairs_to_map(s).contains_key(t[lt].0));
        let i = choose|i: int| 0 <= i < s.len() && s[i].0 == t[lt].0;
        if j < lt {
            assert(key_lt(t[j].0, t[lt].0));
            if i < ls {
                assert(key_lt(s[i].0, s[ls].0));
                lemma_key_lt_asymmetric(t[j].0, t[lt].0);
            } else {
                lemma_key_lt_irreflexive(t[j].0);
            }
        }
        assert(j == lt);
        assert(s[ls] == t[lt]);
        let s1 = s.drop_last();
        let t1 = t.drop_last();
        assert(sorted_keys(s1)) by {
            assert forall|a: int, b: int| 0 <= a < b < s1.len() implies key_lt(
                #[trigger] s1[a].0,
                #[trigger] s1[b].0,
            ) by {
                assert(s1[a] == s[a] && s1[b] == s[b]);
            }
        }
        assert(sorted_keys(t1)) by {
            assert forall|a: int, b: int| 0 <= a < b < t1.len() implies key_lt(
                #[trigger] t1[a].0,
                #[trigger] t1[b].0,
            ) by {
                assert(t1[a] == t[a] && t1[b] == t[b]);
            }
        }
        lemma_sorted_map(s1);
        lemma_sorted_map(t1);
        // Neither shorter sequence holds the largest key, so their maps agree.
        assert(!pairs_to_map(s1).contains_key(s[ls].0)) by {
            if pairs_to_map(s1).contains_key(s[ls].0) {
                let a = choose|a: int| 0 <= a < s1.len() && s1[a].0 == s[ls].0;
                assert(key_lt(s[a].0, s[ls].0));
                lemma_key_lt_irreflexive(s[ls].0);
            }
        }
        assert(!pairs_to_map(t1).contains_key(t[lt].0)) by {
            if pairs_to_map(t1).contains_key(t[lt].0) {
                let a = choose|a: int| 0 <= a < t1.len() && t1[a].0 == t[lt].0;
                assert(key_lt(t[a].0, t[lt].0));
                lemma_key_lt_irreflexive(t[lt].0);
            }
        }
        assert(pairs_to_map(s1) =~= pairs_to_map(s).remove(s[ls].0));
        assert(pairs_to_map(t1) =~= pairs_to_map(t).remove(t[lt].0));
        lemma_sorted_unique(s1, t1);
        assert(s =~= s1.push(s[ls]));
        assert(t =~= t1.push(t[lt]));
    }
}

/// The entries of `m` in ascending key order.
pub open spec fn sorted_entries(m: Map<Seq<char>, i32>) -> Seq<(Seq<char>, i32)> {
    choose|s: Seq<(Seq<char>, i32)>| sorted_keys(s) && pairs_to_map(s) == m
}

// ─── The map ────────────────────────────────────────────────────────────────

/// Variant name → weight, iterated in ascending name order.
#[derive(Debug)]
pub struct VariantMap {
    entries: Vec<(String, i32)>,
}

impl View for VariantMap {
    type V = Map<Seq<char>, i32>;

    closed spec fn view(&self) -> Map<Seq<char>, i32> {
        pairs_to_map(self.entries())
    }
}

impl VariantMap {
    /// The entries in iteration (ascending name) order.
    pub closed spec fn entries(&self) -> Seq<(Seq<char>, i32)> {
        self.entries@.map_values(|e: (String, i32)| (e.0@, e.1))
    }

    /// Names are strictly ascending.
    pub closed spec fn wf(&self) -> bool {
        sorted_keys(self.entries())
    }

    /// The map is the map of its entries.
    pub proof fn lemma_view(&self)
        ensures
            self@ == pairs_to_map(self.entries()),
    {
    }

    /// A well-formed map's entries are the ascending entries of its view: two
    /// maps that hold the same names and weights iterate identically, however
    /// they were built.
    pub proof fn lemma_entries_canonical(&self)
        requires
            self.wf(),
        ensures
            self.entries() == sorted_entries(self@),
    {
        let s = self.entries();
        assert(sorted_keys(s) && pairs_to_map(s) == self@);
        let t = sorted_entries(self@);
        lemma_sorted_unique(s, t);
    }

    /// The empty map.
    pub fn new() -> (m: VariantMap)
        ensures
            m.wf(),
            m.entries() == Seq::<(Seq<char>, i32)>::empty(),
            m@ == Map::<Seq<char>, i32>::empty(),
    {
        let m = VariantMap { entries: Vec::new() };
        assert(m.entries() =~= Seq::<(Seq<char>, i32)>::empty());
        m
    }

    /// Number of names.
    pub fn len(&self) -> (n: usize)
        ensures
            n == self.entries().len(),
    {
        self.entries.len()
    }

    /// The map has no names.
    pub fn is_empty(&self) -> (b: bool)
        ensures
            b == (self.entries().len() == 0),
    {
        self.entries.len() == 0
    }

    /// The `i`-th entry in ascending name order.
    pub fn entry(&self, i: usize) -> (r: (&String, i32))
        requires
            i < self.entries().len(),
        ensures
            r.0@ == self.entries()[i as int].0,
            r.1 == self.entries()[i as int].1,
    {
        let e = &self.entries[i];
        (&e.0, e.1)
    }

    /// Sets the weight of `name` (`BTreeMap::insert`).
    pub fn insert(&mut self, name: String, weight: i32)
        requires
            old(self).wf(),
        ensures
            final(self).wf(),
            final(self)@ == old(self)@.insert(name@, weight),
            final(self).entries().len() <= old(self).entries().len() + 1,
    {
        let ghost s = self.entries();
        let key = chars_of(name.as_str());
        let mut p: usize = 0;
        while p < self.entries.len() && key_less(&self.entries[p].0, &key)
            invariant
                s == self.entries(),
                key@ == name@,
                p <= self.entries@.len(),
                forall|j: int| 0 <= j < p ==> key_lt(#[trigger] s[j].0, name@),
            decreases self.entries@.len() - p,
        {
            p = p + 1;
        }
        proof {
            lemma_sorted_map(s);
        }
        if p < self.entries.len() && string_eq_chars(&self.entries[p].0, &key) {
            self.entries.set(p, (name, weight));
            let ghost n = self.entries();
            assert(n =~= s.update(p as int, (name@, weight)));
            assert(sorted_keys(n)) by {
                assert forall|i: int, j: int| 0 <= i < j < n.len() implies key_lt(
                    #[trigger] n[i].0,
                    #[trigger] n[j].0,
                ) by {
                    assert(s[i].0 == n[i].0 && s[j].0 == n[j].0);
                }
            }
            proof {
                lemma_sorted_map(n);
                assert(pairs_to_map(n) =~= pairs_to_map(s).insert(name@, weight)) by {
                    assert forall|k: Seq<char>| #[trigger] pairs_to_map(n).contains_key(k)
                        <==> pairs_to_map(s).insert(name@, weight).contains_key(k) by {
                        if pairs_to_map(n).contains_key(k) {
                            let i = choose|i: int| 0 <= i < n.len() && n[i].0 == k;
                            assert(pairs_to_map(s).contains_key(s[i].0));
                        }
                        if pairs_to_map(s).contains_key(k) {
                            let i = choose|i: int| 0 <= i < s.len() && s[i].0 == k;
                            assert(pairs_to_map(n).contains_key(n[i].0));
                        }
                        if k == name@ {
                            assert(pairs_to_map(n).contains_key(n[p as int].0));
                        }
                    }
                    assert forall|k: Seq<char>| #[trigger] pairs_to_map(n).contains_key(k)
                        implies pairs_to_map(n)[k] == pairs_to_map(s).insert(name@, weight)[k] by {
                        let i = choose|i: int| 0 <= i < n.len() && n[i].0 == k;
                        if i != p {
                            assert(n[i] == s[i]);
                            if k == name@ {
                                if i < p {
                                    assert(key_lt(s[i].0, name@));
                                    lemma_key_lt_irreflexive(name@);
                                } else {
                                    assert(key_lt(s[p as int].0, s[i].0));
                                    lemma_key_lt_irreflexive(name@);
                                }
                            }
                        }
                    }
                }
            }
        } else {
            self.entries.insert(p, (name, weight));
            let ghost n = self.entries();
            assert(n =~= s.insert(p as int, (name@, weight)));
            proof {
                if p < s.len() {
                    assert(!key_lt(s[p as int].0, name@));
                    assert(s[p as int].0 != name@);
                    lemma_key_lt_total(s[p as int].0, name@);
                    assert(key_lt(name@, s[p as int].0));
                }
            }
            assert(sorted_keys(n)) by {
                assert forall|i: int, j: int| 0 <= i < j < n.len() implies key_lt(
                    #[trigger] n[i].0,
                    #[trigger] n[j].0,
                ) by {
                    if j < p {
                        assert(n[i] == s[i] && n[j] == s[j]);
                    } else if j == p {
                        assert(n[i] == s[i]);
                    } else if i == p {
                        assert(n[j] == s[j - 1]);
                        if j - 1 > p {
                            lemma_key_lt_transitive(name@, s[p as int].0, s[j - 1].0);
                        }
                    } else if i < p {
                        assert(n[i] == s[i] && n[j] == s[j - 1]);
                    } else {
                        assert(n[i] == s[i - 1] && n[j] == s[j - 1]);
                    }
                }
            }
            proof {
                lemma_sorted_map(n);
                assert(!pairs_to_map(s).contains_key(name@)) by {
                    if pairs_to_map(s).contains_key(name@) {
                        let i = choose|i: int| 0 <= i < s.len() && s[i].0 == name@;
                        if i < p {
                            lemma_key_lt_irreflexive(name@);
                        } else {
                            if i > p {
                                lemma_key_lt_transitive(name@, s[p as int].0, s[i].0);
                            }
                            lemma_key_lt_irreflexive(name@);
                        }
                    }
                }
                assert(pairs_to_map(n) =~= pairs_to_map(s).insert(name@, weight)) by {
                    assert forall|k: Seq<char>| #[trigger] pairs_to_map(n).contains_key(k)
                        <==> pairs_to_map(s).insert(name@, weight).contains_key(k) by {
                        if pairs_to_map(n).contains_key(k) {
                            let i = choose|i: int| 0 <= i < n.len() && n[i].0 == k;
                            if i < p {
                                assert(n[i] == s[i]);
                                assert(pairs_to_map(s).contains_key(s[i].0));
                            } else if i > p {
                                assert(n[i] == s[i - 1]);
                                assert(pairs_to_map(s).contains_key(s[i - 1].0));
                            }
                        }
                        if pairs_to_map(s).contains_key(k) {
                            let i = choose|i: int| 0 <= i < s.len() && s[i].0 == k;
                            if i < p {
                                assert(n[i] == s[i]);
                                assert(pairs_to_map(n).contains_key(n[i].0));
                            } else {
                                assert(n[i + 1] == s[i]);
                                assert(pairs_to_map(n).contains_key(n[i + 1].0));
                            }
                        }
                        if k == name@ {
                            assert(pairs_to_map(n).contains_key(n[p as int].0));
                        }
                    }
                    assert forall|k: Seq<char>| #[trigger] pairs_to_map(n).contains_key(k)
                        implies pairs_to_map(n)[k] == pairs_to_map(s).insert(name@, weight)[k] by {
                        let i = choose|i: int| 0 <= i < n.len() && n[i].0 == k;
                        if i < p {
                            assert(n[i] == s[i]);
                            assert(pairs_to_map(s).contains_key(s[i].0));
                        } else if i > p {
                            assert(n[i] == s[i - 1]);
                            assert(pairs_to_map(s).contains_key(s[i - 1].0));
                        }
                    }
                }
            }
        }
    }
}

/// `a < b` in `String` order.
fn key_less(a: &String, b: &Vec<char>) -> (r: bool)
    ensures
        r == key_lt(a@, b@),
{
    let av = chars_of(a.as_str());
    let mut i: usize = 0;
    assert(a@.skip(0) =~= a@);
    assert(b@.skip(0) =~= b@);
    while i < av.len() && i < b.len() && av[i] == b[i]
        invariant
            av@ == a@,
            i <= av.len(),
            i <= b.len(),
            key_lt(a@, b@) == key_lt(a@.skip(i as int), b@.skip(i as int)),
        decreases av.len() - i,
    {
        assert(a@.skip(i as int).drop_first() =~= a@.skip(i + 1));
        assert(b@.skip(i as int).drop_first() =~= b@.skip(i + 1));
        i = i + 1;
    }
    if i == av.len() {
        i < b.len()
    } else if i == b.len() {
        false
    } else {
        (av[i] as u32) < (b[i] as u32)
    }
}

/// `a` holds exactly the characters `b`.
fn string_eq_chars(a: &String, b: &Vec<char>) -> (r: bool)
    ensures
        r == (a@ == b@),
{
    let av = chars_of(a.as_str());
    crate::text::chars_eq(&av, b)
}

} // verus!
