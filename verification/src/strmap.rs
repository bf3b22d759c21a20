//! A string-keyed map stored as an association list with distinct keys.
//!
//! The CRDT documents this library models are built out of maps from strings
//! to values (files by path, branches by id, attributes by name).  `StrMap`
//! is the one executable representation used for all of them; its view is a
//! `Map<Seq<char>, V::V>` so contracts can speak in mathematical maps.

use vstd::prelude::*;

verus! {

/// Map from string keys to values, with each key present at most once.
pub struct StrMap<V> {
    entries: Vec<(String, V)>,
}

/// The mathematical map described by a sequence of key-value pairs; later
/// pairs win over earlier ones with the same key.
pub open spec fn pairs_to_map<V: View>(s: Seq<(String, V)>) -> Map<Seq<char>, V::V>
    decreases s.len(),
{
    if s.len() == 0 {
        Map::empty()
    } else {
        pairs_to_map(s.drop_last()).insert(s.last().0@, s.last().1@)
    }
}

impl<V: View> View for StrMap<V> {
    type V = Map<Seq<char>, V::V>;

    closed spec fn view(&self) -> Map<Seq<char>, V::V> {
        pairs_to_map(self.entries@)
    }
}

proof fn lemma_pairs_to_map_dom<V: View>(s: Seq<(String, V)>)
    ensures
        pairs_to_map(s).dom().finite(),
        forall|k: Seq<char>|
            pairs_to_map(s).contains_key(k) <==> exists|i: int|
                0 <= i < s.len() && #[trigger] s[i].0@ == k,
    decreases s.len(),
{
    if s.len() == 0 {
    } else {
        lemma_pairs_to_map_dom(s.drop_last());
        assert forall|k: Seq<char>| pairs_to_map(s).contains_key(k) implies exists|i: int|
            0 <= i < s.len() && #[trigger] s[i].0@ == k by {
            if k == s.last().0@ {
                assert(s[s.len() - 1].0@ == k);
            } else {
                let i = choose|i: int| 0 <= i < s.drop_last().len() && #[trigger] s.drop_last()[i].0@ == k;
                assert(s[i].0@ == k);
            }
        }
        assert forall|k: Seq<char>|
            (exists|i: int| 0 <= i < s.len() && #[trigger] s[i].0@ == k) implies pairs_to_map(
            s,
        ).contains_key(k) by {
            let i = choose|i: int| 0 <= i < s.len() && #[trigger] s[i].0@ == k;
            if i < s.len() - 1 {
                assert(s.drop_last()[i].0@ == k);
            }
        }
    }
}

proof fn lemma_pairs_to_map_index<V: View>(s: Seq<(String, V)>, i: int)
    requires
        0 <= i < s.len(),
        forall|j1: int, j2: int|
            0 <= j1 < j2 < s.len() ==> #[trigger] s[j1].0@ != #[trigger] s[j2].0@,
    ensures
        pairs_to_map(s).contains_key(s[i].0@),
        pairs_to_map(s)[s[i].0@] == s[i].1@,
    decreases s.len(),
{
    lemma_pairs_to_map_dom::<V>(s);
    if i == s.len() - 1 {
    } else {
        assert(s[i].0@ != s.last().0@);
        lemma_pairs_to_map_index(s.drop_last(), i);
        assert(s.drop_last()[i] == s[i]);
    }
}

proof fn lemma_pairs_to_map_len<V: View>(s: Seq<(String, V)>)
    requires
        forall|j1: int, j2: int|
            0 <= j1 < j2 < s.len() ==> #[trigger] s[j1].0@ != #[trigger] s[j2].0@,
    ensures
        pairs_to_map(s).dom().len() == s.len(),
    decreases s.len(),
{
    lemma_pairs_to_map_dom::<V>(s);
    if s.len() == 0 {
    } else {
        lemma_pairs_to_map_dom::<V>(s.drop_last());
        lemma_pairs_to_map_len(s.drop_last());
        assert(!pairs_to_map(s.drop_last()).contains_key(s.last().0@)) by {
            if pairs_to_map(s.drop_last()).contains_key(s.last().0@) {
                let i = choose|i: int|
                    0 <= i < s.drop_last().len() && #[trigger] s.drop_last()[i].0@ == s.last().0@;
                assert(s[i].0@ == s[s.len() - 1].0@);
            }
        }
        assert(pairs_to_map(s).dom() =~= pairs_to_map(s.drop_last()).dom().insert(s.last().0@));
        vstd::set::axiom_set_insert_len(pairs_to_map(s.drop_last()).dom(), s.last().0@);
    }
}

impl<V: View> StrMap<V> {
    /// Keys are pairwise distinct.
    pub closed spec fn wf(&self) -> bool {
        forall|j1: int, j2: int|
            0 <= j1 < j2 < self.entries@.len() ==> #[trigger] self.entries@[j1].0@
                != #[trigger] self.entries@[j2].0@
    }

    /// The stored values, so a client can state an invariant over them (the
    /// view only shows their mathematical images).
    pub closed spec fn values(&self) -> Seq<V> {
        self.entries@.map_values(|e: (String, V)| e.1)
    }

    /// The empty map.
    pub fn new() -> (r: StrMap<V>)
        ensures
            r.wf(),
            r@ == Map::<Seq<char>, V::V>::empty(),
            r.values().len() == 0,
    {
        StrMap { entries: Vec::new() }
    }

    /// How many keys the map holds.
    pub fn len(&self) -> (r: usize)
        requires
            self.wf(),
        ensures
            r == self@.dom().len(),
    {
        proof {
            lemma_pairs_to_map_len(self.entries@);
        }
        self.entries.len()
    }

    pub fn contains_key(&self, k: &str) -> (r: bool)
        ensures
            r == self@.contains_key(k@),
    {
        proof {
            lemma_pairs_to_map_dom(self.entries@);
        }
        let n = self.entries.len();
        let mut i: usize = 0;
        while i < n
            invariant
                i <= n,
                n == self.entries@.len(),
                forall|j: int| 0 <= j < i ==> #[trigger] self.entries@[j].0@ != k@,
            decreases n - i,
        {
            if crate::text::str_eq(self.entries[i].0.as_str(), k) {
                proof {
                    lemma_pairs_to_map_dom(self.entries@);
                    assert(self.entries@[i as int].0@ == k@);
                }
                return true;
            }
            i = i + 1;
        }
        false
    }

    /// Look the key up; `None` exactly when the key is absent.
    pub fn get(&self, k: &str) -> (r: Option<&V>)
        requires
            self.wf(),
        ensures
            match r {
                Some(v) => self@.contains_key(k@) && v@ == self@[k@] && exists|i: int|
                    0 <= i < self.values().len() && #[trigger] self.values()[i] == *v,
                None => !self@.contains_key(k@),
            },
    {
        proof {
            lemma_pairs_to_map_dom(self.entries@);
        }
        let n = self.entries.len();
        let mut i: usize = 0;
        while i < n
            invariant
                i <= n,
                n == self.entries@.len(),
                self.wf(),
                forall|j: int| 0 <= j < i ==> #[trigger] self.entries@[j].0@ != k@,
            decreases n - i,
        {
            if crate::text::str_eq(self.entries[i].0.as_str(), k) {
                proof {
                    lemma_pairs_to_map_index(self.entries@, i as int);
                    assert(self.values()[i as int] == self.entries@[i as int].1);
                }
                return Some(&self.entries[i].1);
            }
            i = i + 1;
        }
        None
    }

    /// Insert or overwrite the binding for `k`.
    pub fn insert(&mut self, k: String, v: V)
        requires
            old(self).wf(),
        ensures
            final(self).wf(),
            final(self)@ == old(self)@.insert(k@, v@),
            forall|i: int|
                0 <= i < final(self).values().len() ==> #[trigger] final(self).values()[i] == v
                    || exists|j: int|
                    0 <= j < old(self).values().len() && old(self).values()[j]
                        == final(self).values()[i],
    {
        proof {
            lemma_pairs_to_map_dom(old(self).entries@);
        }
        let n = self.entries.len();
        let mut i: usize = 0;
        while i < n
            invariant
                i <= n,
                n == self.entries@.len(),
                old(self).wf(),
                self.entries@ == old(self).entries@,
                forall|j: int| 0 <= j < i ==> #[trigger] self.entries@[j].0@ != k@,
            decreases n - i,
        {
            if crate::text::str_eq(self.entries[i].0.as_str(), k.as_str()) {
                let ghost vv = v;
                self.entries.set(i, (k, v));
                proof {
                    lemma_update_view(old(self).entries@, self.entries@, i as int);
                    assert forall|m: int| 0 <= m < self.values().len() implies #[trigger] self.values()[m]
                        == vv || exists|j: int|
                        0 <= j < old(self).values().len() && old(self).values()[j]
                            == self.values()[m] by {
                        assert(self.values()[m] == self.entries@[m].1);
                        if m != i {
                            assert(old(self).values()[m] == old(self).entries@[m].1);
                            assert(self.entries@[m] == old(self).entries@[m]);
                        }
                    }
                }
                return ;
            }
            i = i + 1;
        }
        let ghost vv = v;
        self.entries.push((k, v));
        proof {
            assert forall|m: int| 0 <= m < self.values().len() implies #[trigger] self.values()[m]
                == vv || exists|j: int|
                0 <= j < old(self).values().len() && old(self).values()[j] == self.values()[m] by {
                assert(self.values()[m] == self.entries@[m].1);
                if m < self.entries@.len() - 1 {
                    assert(old(self).values()[m] == old(self).entries@[m].1);
                    assert(self.entries@[m] == old(self).entries@[m]);
                }
            }
            assert(self.entries@.drop_last() =~= old(self).entries@);
            assert forall|j1: int, j2: int| 0 <= j1 < j2 < self.entries@.len() implies #[trigger] self.entries@[j1].0@
                != #[trigger] self.entries@[j2].0@ by {
                if j2 == self.entries@.len() - 1 {
                    assert(old(self).entries@[j1].0@ != k@);
                }
            }
        }
    }

    /// Drop the binding for `k`, if any; returns whether one was there.
    pub fn remove(&mut self, k: &str) -> (removed: bool)
        requires
            old(self).wf(),
        ensures
            final(self).wf(),
            final(self)@ == old(self)@.remove(k@),
            removed == old(self)@.contains_key(k@),
            forall|i: int|
                0 <= i < final(self).values().len() ==> old(self).values().contains(
                    #[trigger] (final(self).values()[i]),
                ),
    {
        proof {
            lemma_pairs_to_map_dom(old(self).entries@);
        }
        let n = self.entries.len();
        let mut i: usize = 0;
        while i < n
            invariant
                i <= n,
                n == self.entries@.len(),
                old(self).wf(),
                self.entries@ == old(self).entries@,
                forall|j: int| 0 <= j < i ==> #[trigger] self.entries@[j].0@ != k@,
            decreases n - i,
        {
            if crate::text::str_eq(self.entries[i].0.as_str(), k) {
                self.entries.remove(i);
                proof {
                    lemma_pairs_to_map_dom(old(self).entries@);
                    assert(old(self).entries@[i as int].0@ == k@);
                    lemma_pairs_to_map_remove(old(self).entries@, self.entries@, i as int);
                    assert forall|i2: int| 0 <= i2 < self.values().len() implies old(
                        self,
                    ).values().contains(#[trigger] (self.values()[i2])) by {
                        assert(self.values()[i2] == self.entries@[i2].1);
                        if i2 < i {
                            assert(old(self).values()[i2] == old(self).entries@[i2].1);
                            assert(self.entries@[i2] == old(self).entries@[i2]);
                            assert(old(self).values()[i2] == self.values()[i2]);
                        } else {
                            assert(old(self).values()[i2 + 1] == old(self).entries@[i2 + 1].1);
                            assert(self.entries@[i2] == old(self).entries@[i2 + 1]);
                            assert(old(self).values()[i2 + 1] == self.values()[i2]);
                        }
                    }
                }
                return true;
            }
            i = i + 1;
        }
        proof {
            assert(!old(self)@.contains_key(k@));
            assert(old(self)@.remove(k@) =~= old(self)@);
            assert forall|i2: int| 0 <= i2 < self.values().len() implies old(
                self,
            ).values().contains(#[trigger] (self.values()[i2])) by {
                assert(old(self).values()[i2] == self.values()[i2]);
            }
        }
        false
    }

    /// The keys, one `String` per binding, in no promised order.
    pub fn keys(&self) -> (r: Vec<String>)
        requires
            self.wf(),
        ensures
            r@.len() == self@.dom().len(),
            forall|i: int| 0 <= i < r@.len() ==> self@.contains_key(#[trigger] r@[i]@),
            forall|k: Seq<char>|
                self@.contains_key(k) ==> exists|i: int| 0 <= i < r@.len() && #[trigger] r@[i]@ == k,
            forall|i1: int, i2: int| 0 <= i1 < i2 < r@.len() ==> #[trigger] r@[i1]@ != #[trigger] r@[i2]@,
    {
        proof {
            lemma_pairs_to_map_dom(self.entries@);
            lemma_pairs_to_map_len(self.entries@);
        }
        let n = self.entries.len();
        let mut r: Vec<String> = Vec::new();
        let mut i: usize = 0;
        while i < n
            invariant
                i <= n,
                n == self.entries@.len(),
                self.wf(),
                r@.len() == i,
                forall|j: int| 0 <= j < i ==> #[trigger] r@[j]@ == self.entries@[j].0@,
            decreases n - i,
        {
            let s = self.entries[i].0.clone();
            r.push(s);
            i = i + 1;
        }
        proof {
            assert forall|k: Seq<char>| self@.contains_key(k) implies exists|i: int|
                0 <= i < r@.len() && #[trigger] r@[i]@ == k by {
                let j = choose|j: int| 0 <= j < self.entries@.len() && #[trigger] self.entries@[j].0@ == k;
                assert(r@[j]@ == k);
            }
        }
        r
    }
}

/// Removing the one entry that holds a key removes exactly that key from
/// the described map, provided keys are distinct.
proof fn lemma_pairs_to_map_remove<V: View>(
    s0: Seq<(String, V)>,
    s1: Seq<(String, V)>,
    i: int,
)
    requires
        0 <= i < s0.len(),
        s1 == s0.remove(i),
        forall|j1: int, j2: int|
            0 <= j1 < j2 < s0.len() ==> #[trigger] s0[j1].0@ != #[trigger] s0[j2].0@,
    ensures
        forall|j1: int, j2: int|
            0 <= j1 < j2 < s1.len() ==> #[trigger] s1[j1].0@ != #[trigger] s1[j2].0@,
        pairs_to_map(s1) == pairs_to_map(s0).remove(s0[i].0@),
    decreases s0.len(),
{
    assert forall|j1: int, j2: int| 0 <= j1 < j2 < s1.len() implies #[trigger] s1[j1].0@
        != #[trigger] s1[j2].0@ by {
        if j2 < i {
            assert(s1[j1] == s0[j1] && s1[j2] == s0[j2]);
        } else if j1 < i {
            assert(s1[j1] == s0[j1] && s1[j2] == s0[j2 + 1]);
        } else {
            assert(s1[j1] == s0[j1 + 1] && s1[j2] == s0[j2 + 1]);
        }
    }
    if i == s0.len() - 1 {
        assert(s1 =~= s0.drop_last());
        lemma_pairs_to_map_dom(s0.drop_last());
        assert(!pairs_to_map(s0.drop_last()).contains_key(s0[i].0@)) by {
            if pairs_to_map(s0.drop_last()).contains_key(s0[i].0@) {
                let j = choose|j: int|
                    0 <= j < s0.drop_last().len() && #[trigger] s0.drop_last()[j].0@ == s0[i].0@;
                assert(s0[j].0@ == s0[s0.len() - 1].0@);
            }
        }
        assert(pairs_to_map(s1) =~= pairs_to_map(s0).remove(s0[i].0@));
    } else {
        assert(s1.drop_last() =~= s0.drop_last().remove(i));
        assert forall|j1: int, j2: int| 0 <= j1 < j2 < s0.drop_last().len() implies #[trigger] s0.drop_last()[j1].0@
            != #[trigger] s0.drop_last()[j2].0@ by {
            assert(s0.drop_last()[j1] == s0[j1] && s0.drop_last()[j2] == s0[j2]);
        }
        lemma_pairs_to_map_remove(s0.drop_last(), s1.drop_last(), i);
        assert(s1.last() == s0.last());
        assert(s0.drop_last()[i] == s0[i]);
        assert(s0[i].0@ != s0.last().0@);
        assert(pairs_to_map(s1) =~= pairs_to_map(s0).remove(s0[i].0@));
    }
}

/// Two entry lists whose keys and value views agree index by index describe
/// the same map.
proof fn lemma_pairs_to_map_congruent<V: View>(s0: Seq<(String, V)>, s1: Seq<(String, V)>)
    requires
        s1.len() == s0.len(),
        forall|j: int|
            0 <= j < s0.len() ==> (#[trigger] s1[j]).0@ == (#[trigger] s0[j]).0@ && s1[j].1@
                == s0[j].1@,
    ensures
        pairs_to_map(s1) == pairs_to_map(s0),
    decreases s0.len(),
{
    if s0.len() > 0 {
        assert forall|j: int| 0 <= j < s0.drop_last().len() implies (#[trigger] s1.drop_last()[j]).0@
            == (#[trigger] s0.drop_last()[j]).0@ && s1.drop_last()[j].1@
            == s0.drop_last()[j].1@ by {
            assert(s1.drop_last()[j] == s1[j] && s0.drop_last()[j] == s0[j]);
            assert(s1[j].0@ == s0[j].0@ && s1[j].1@ == s0[j].1@);
        }
        lemma_pairs_to_map_congruent(s0.drop_last(), s1.drop_last());
        assert(s1[s0.len() - 1].0@ == s0[s0.len() - 1].0@ && s1[s0.len() - 1].1@ == s0[s0.len()
            - 1].1@);
        assert(pairs_to_map(s1) =~= pairs_to_map(s0));
    }
}

impl StrMap<String> {
    /// Copy every binding of `other` into `self`, overwriting on key
    /// collisions, so `other`'s bindings win.
    pub fn absorb(&mut self, other: &StrMap<String>)
        requires
            old(self).wf(),
            other.wf(),
        ensures
            final(self).wf(),
            final(self)@ == old(self)@.union_prefer_right(other@),
    {
        let n = other.entries.len();
        let mut i: usize = 0;
        while i < n
            invariant
                i <= n,
                n == other.entries@.len(),
                self.wf(),
                other.wf(),
                self@ == old(self)@.union_prefer_right(pairs_to_map(other.entries@.take(i as int))),
            decreases n - i,
        {
            let k = other.entries[i].0.clone();
            let v = other.entries[i].1.clone();
            let ghost before = self@;
            self.insert(k, v);
            proof {
                let t1 = other.entries@.take(i as int + 1);
                assert(t1.drop_last() =~= other.entries@.take(i as int));
                assert(t1.last() == other.entries@[i as int]);
                assert(self@ =~= old(self)@.union_prefer_right(pairs_to_map(t1)));
            }
            i = i + 1;
        }
        proof {
            assert(other.entries@.take(n as int) =~= other.entries@);
        }
    }

    /// A copy with the same keys and the same character contents.
    pub fn duplicate(&self) -> (r: StrMap<String>)
        requires
            self.wf(),
        ensures
            r.wf(),
            r@ == self@,
    {
        let n = self.entries.len();
        let mut es: Vec<(String, String)> = Vec::new();
        let mut i: usize = 0;
        while i < n
            invariant
                i <= n,
                n == self.entries@.len(),
                es@.len() == i,
                forall|j: int|
                    0 <= j < i ==> #[trigger] es@[j].0@ == self.entries@[j].0@ && es@[j].1@
                        == self.entries@[j].1@,
            decreases n - i,
        {
            let key = self.entries[i].0.clone();
            let val = self.entries[i].1.clone();
            es.push((key, val));
            i = i + 1;
        }
        let r = StrMap { entries: es };
        proof {
            assert forall|j1: int, j2: int| 0 <= j1 < j2 < r.entries@.len() implies #[trigger] r.entries@[j1].0@
                != #[trigger] r.entries@[j2].0@ by {
                assert(self.entries@[j1].0@ != self.entries@[j2].0@);
            }
            lemma_pairs_to_map_congruent(self.entries@, r.entries@);
        }
        r
    }
}

proof fn lemma_update_view<V: View>(s0: Seq<(String, V)>, s1: Seq<(String, V)>, i: int)
    requires
        0 <= i < s0.len(),
        s1.len() == s0.len(),
        forall|j: int| 0 <= j < s0.len() && j != i ==> s1[j] == s0[j],
        s1[i].0@ == s0[i].0@,
        forall|j1: int, j2: int| 0 <= j1 < j2 < s0.len() ==> #[trigger] s0[j1].0@ != #[trigger] s0[j2].0@,
    ensures
        forall|j1: int, j2: int| 0 <= j1 < j2 < s1.len() ==> #[trigger] s1[j1].0@ != #[trigger] s1[j2].0@,
        pairs_to_map(s1) == pairs_to_map(s0).insert(s1[i].0@, s1[i].1@),
    decreases s0.len(),
{
    assert forall|j1: int, j2: int| 0 <= j1 < j2 < s1.len() implies #[trigger] s1[j1].0@
        != #[trigger] s1[j2].0@ by {
        assert(s1[j1].0@ == s0[j1].0@ && s1[j2].0@ == s0[j2].0@);
    }
    if i == s0.len() - 1 {
        assert(s1.drop_last() =~= s0.drop_last());
        assert(pairs_to_map(s1) =~= pairs_to_map(s0).insert(s1[i].0@, s1[i].1@));
    } else {
        lemma_update_view(s0.drop_last(), s1.drop_last(), i);
        assert(s1.last() == s0.last());
        assert(s1.drop_last()[i] == s1[i]);
        assert(pairs_to_map(s1) == pairs_to_map(s0.drop_last()).insert(s1[i].0@, s1[i].1@).insert(
            s0.last().0@,
            s0.last().1@,
        ));
        assert(s0[i].0@ != s0.last().0@);
        assert(pairs_to_map(s0.drop_last()).insert(s1[i].0@, s1[i].1@).insert(
            s0.last().0@,
            s0.last().1@,
        ) =~= pairs_to_map(s0).insert(s1[i].0@, s1[i].1@));
    }
}

} // verus!
