//! The accumulator for discovered hostnames: a set of strings with no
//! duplicates, kept in insertion order so that query construction is
//! deterministic.

use vstd::prelude::*;
use vstd::seq_lib::*;

use crate::text::str_eq;

verus! {

/// The text a search-engine query excludes: one `pre + member` block per
/// member, in order.
pub open spec fn exclusions(subs: Seq<Seq<char>>, pre: Seq<char>) -> Seq<char>
    decreases subs.len(),
{
    if subs.len() == 0 {
        Seq::<char>::empty()
    } else {
        exclusions(subs.drop_last(), pre) + pre + subs.last()
    }
}

/// The first `n` elements, or all of them when fewer are there.
pub open spec fn take_up_to<A>(s: Seq<A>, n: int) -> Seq<A> {
    if n < s.len() {
        s.take(n)
    } else {
        s
    }
}

/// A set of hostname strings. Duplicates are impossible; insertion order is
/// kept, and the order is what the search-engine query builders fold over.
pub struct DomainSet {
    items: Vec<String>,
}

impl View for DomainSet {
    type V = Set<Seq<char>>;

    open spec fn view(&self) -> Set<Seq<char>> {
        self.seq_view().to_set()
    }
}

impl DomainSet {
    /// The members in insertion order.
    pub closed spec fn seq_view(&self) -> Seq<Seq<char>> {
        self.items@.map_values(|s: String| s@)
    }

    /// No member occurs twice.
    pub open spec fn wf(&self) -> bool {
        self.seq_view().no_duplicates()
    }

    /// The empty set.
    pub fn new() -> (s: Self)
        ensures
            s.wf(),
            s.seq_view() == Seq::<Seq<char>>::empty(),
            s@ == Set::<Seq<char>>::empty(),
    {
        let s = DomainSet { items: Vec::new() };
        proof {
            assert(s.seq_view() =~= Seq::<Seq<char>>::empty());
            assert(s@ =~= Set::<Seq<char>>::empty());
        }
        s
    }

    /// How many members the set has.
    pub fn len(&self) -> (n: usize)
        ensures
            n == self.seq_view().len(),
    {
        self.items.len()
    }

    /// The member at position `i` in insertion order.
    pub fn get(&self, i: usize) -> (s: &String)
        requires
            i < self.seq_view().len(),
        ensures
            s@ == self.seq_view()[i as int],
    {
        &self.items[i]
    }

    /// The set view is finite, and when well formed its cardinality equals
    /// the number of stored members.
    pub proof fn lemma_cardinality(&self)
        ensures
            self@.finite(),
            self@.len() <= self.seq_view().len(),
            self.wf() ==> self@.len() == self.seq_view().len(),
    {
        self.seq_view().lemma_cardinality_of_set();
        if self.wf() {
            self.seq_view().unique_seq_to_set();
        }
    }

    /// Membership test.
    pub fn contains_str(&self, s: &str) -> (r: bool)
        ensures
            r == self@.contains(s@),
    {
        let n = self.items.len();
        let mut i: usize = 0;
        while i < n
            invariant
                i <= n,
                n == self.seq_view().len(),
                forall|k: int| 0 <= k < i ==> self.seq_view()[k] != s@,
            decreases n - i,
        {
            if str_eq(self.items[i].as_str(), s) {
                proof {
                    assert(self.seq_view()[i as int] == s@);
                }
                return true;
            }
            i += 1;
        }
        proof {
            assert(!self.seq_view().contains(s@));
        }
        false
    }

    /// Insert a hostname. Inserting a member that is already present leaves
    /// the set unchanged, so the union is idempotent and the cardinality
    /// never decreases.
    pub fn insert(&mut self, s: String)
        requires
            old(self).wf(),
        ensures
            final(self).wf(),
            final(self)@ == old(self)@.insert(s@),
            final(self).seq_view() == if old(self)@.contains(s@) {
                old(self).seq_view()
            } else {
                old(self).seq_view().push(s@)
            },
            old(self)@.len() <= final(self)@.len() <= old(self)@.len() + 1,
    {
        proof {
            self.lemma_cardinality();
        }
        if !self.contains_str(s.as_str()) {
            let ghost pre = self.seq_view();
            self.items.push(s);
            proof {
                assert(self.seq_view() =~= pre.push(s@));
                pre.lemma_push_to_set_commute(s@);
                assert(self@ =~= old(self)@.insert(s@));
                self.lemma_cardinality();
            }
        } else {
            proof {
                assert(self@ =~= old(self)@.insert(s@));
            }
        }
    }

    /// Add every member of `other`, taking the union of the two sets.
    pub fn merge(&mut self, other: &DomainSet)
        requires
            old(self).wf(),
        ensures
            final(self).wf(),
            final(self)@ == old(self)@.union(other@),
            old(self)@.len() <= final(self)@.len(),
    {
        proof {
            self.lemma_cardinality();
        }
        let n = other.items.len();
        let mut i: usize = 0;
        while i < n
            invariant
                i <= n,
                n == other.seq_view().len(),
                self.wf(),
                self@ == old(self)@.union(other.seq_view().take(i as int).to_set()),
                old(self)@.len() <= self@.len(),
            decreases n - i,
        {
            let ghost pre = self@;
            self.insert(other.items[i].clone());
            proof {
                assert(other.seq_view().take(i + 1).drop_last() =~= other.seq_view().take(
                    i as int,
                ));
                assert(other.seq_view().take(i + 1).last() == other.seq_view()[i as int]);
                assert(other.seq_view().take(i + 1).to_set() =~= other.seq_view().take(
                    i as int,
                ).to_set().insert(other.seq_view()[i as int]));
                assert(self@ =~= old(self)@.union(other.seq_view().take(i + 1).to_set()));
            }
            i += 1;
        }
        proof {
            assert(other.seq_view().take(n as int) =~= other.seq_view());
            assert(self@ =~= old(self)@.union(other@));
        }
    }

    /// Append to `q` one `pre + member` block per member, in insertion
    /// order, up to `limit` members.
    #[verifier::loop_isolation(false)]
    pub fn append_exclusions(&self, q: &mut String, pre: &str, limit: usize)
        ensures
            final(q)@ == old(q)@ + exclusions(take_up_to(self.seq_view(), limit as int), pre@),
    {
        let total = self.len();
        let n = if limit < total {
            limit
        } else {
            total
        };
        let mut i: usize = 0;
        proof {
            assert(q@ =~= old(q)@ + exclusions(self.seq_view().take(0), pre@));
        }
        while i < n
            invariant
                i <= n,
                q@ == old(q)@ + exclusions(self.seq_view().take(i as int), pre@),
            decreases n - i,
        {
            q.append(pre);
            q.append(self.get(i).as_str());
            proof {
                let sv = self.seq_view();
                assert(sv.take(i + 1).drop_last() =~= sv.take(i as int));
                assert(sv.take(i + 1).last() == sv[i as int]);
                assert(q@ =~= old(q)@ + exclusions(sv.take(i + 1), pre@));
            }
            i += 1;
        }
        proof {
            assert(self.seq_view().take(n as int) =~= take_up_to(
                self.seq_view(),
                limit as int,
            ));
        }
    }

    /// The members as a vector of strings, in insertion order.
    pub fn into_vec(self) -> (v: Vec<String>)
        ensures
            v@.map_values(|s: String| s@) == self.seq_view(),
    {
        self.items
    }
}

} // verus!
