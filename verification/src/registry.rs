//! The handle registry: which documents are materialized on this peer.
//!
//! The driver tracks document ids; the live handles they stand for are kept
//! by the embedding side.  Adding an id that is already present is a no-op,
//! and the caller learns whether the id was new — a first-time insertion is
//! what gets announced to listeners.

use vstd::prelude::*;

verus! {

/// The set of materialized document ids.
pub struct Registry {
    ids: Vec<String>,
}

/// The set described by a list of ids.
pub open spec fn ids_to_set(s: Seq<String>) -> Set<Seq<char>>
    decreases s.len(),
{
    if s.len() == 0 {
        Set::empty()
    } else {
        ids_to_set(s.drop_last()).insert(s.last()@)
    }
}

proof fn lemma_ids_to_set(s: Seq<String>)
    ensures
        forall|k: Seq<char>|
            ids_to_set(s).contains(k) <==> exists|i: int| 0 <= i < s.len() && #[trigger] s[i]@ == k,
    decreases s.len(),
{
    if s.len() > 0 {
        lemma_ids_to_set(s.drop_last());
        assert forall|k: Seq<char>| ids_to_set(s).contains(k) implies exists|i: int|
            0 <= i < s.len() && #[trigger] s[i]@ == k by {
            if k == s.last()@ {
                assert(s[s.len() - 1]@ == k);
            } else {
                assert(ids_to_set(s.drop_last()).contains(k));
                let i = choose|i: int| 0 <= i < s.drop_last().len() && #[trigger] s.drop_last()[i]@ == k;
                assert(s[i]@ == k);
            }
        }
        assert forall|k: Seq<char>|
            (exists|i: int| 0 <= i < s.len() && #[trigger] s[i]@ == k) implies ids_to_set(
            s,
        ).contains(k) by {
            let i = choose|i: int| 0 <= i < s.len() && #[trigger] s[i]@ == k;
            if i < s.len() - 1 {
                assert(s.drop_last()[i]@ == k);
                assert(ids_to_set(s.drop_last()).contains(k));
            }
        }
    }
}

impl View for Registry {
    type V = Set<Seq<char>>;

    closed spec fn view(&self) -> Set<Seq<char>> {
        ids_to_set(self.ids@)
    }
}

impl Registry {
    /// No documents tracked yet.
    pub fn new() -> (r: Registry)
        ensures
            r@ == Set::<Seq<char>>::empty(),
    {
        Registry { ids: Vec::new() }
    }

    /// Whether the document id is tracked.
    pub fn contains(&self, id: &str) -> (r: bool)
        ensures
            r == self@.contains(id@),
    {
        proof {
            lemma_ids_to_set(self.ids@);
        }
        let n = self.ids.len();
        let mut i: usize = 0;
        while i < n
            invariant
                i <= n,
                n == self.ids@.len(),
                forall|j: int| 0 <= j < i ==> #[trigger] self.ids@[j]@ != id@,
            decreases n - i,
        {
            if crate::text::str_eq(self.ids[i].as_str(), id) {
                proof {
                    lemma_ids_to_set(self.ids@);
                    assert(self.ids@[i as int]@ == id@);
                }
                return true;
            }
            i = i + 1;
        }
        false
    }

    /// Track a document id; returns whether it was new.  Idempotent.
    pub fn add(&mut self, id: String) -> (added: bool)
        ensures
            final(self)@ == old(self)@.insert(id@),
            added == !old(self)@.contains(id@),
    {
        if self.contains(id.as_str()) {
            proof {
                assert(old(self)@.insert(id@) =~= old(self)@);
            }
            false
        } else {
            self.ids.push(id);
            proof {
                assert(self.ids@.drop_last() =~= old(self).ids@);
            }
            true
        }
    }
}

} // verus!
