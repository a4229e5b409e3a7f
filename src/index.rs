use crate::identity::{identity_key, key_of, lemma_identity_key_injective, FileIdentity, Resolution};
use std::collections::HashSet;
use vstd::prelude::*;

verus! {

broadcast use vstd::std_specs::hash::group_hash_axioms;

/// The identities that one scan of a media root found.
pub open spec fn identities_of(entries: Seq<Resolution>) -> Set<FileIdentity> {
    Set::new(|id: FileIdentity| exists|j: int| 0 <= j < entries.len() && #[trigger] entries[j].gives(id))
}

/// The identities found by the scans of all media roots.
pub open spec fn indexed(roots: Seq<Vec<Resolution>>) -> Set<FileIdentity> {
    Set::new(|id: FileIdentity| exists|i: int| 0 <= i < roots.len() && #[trigger] identities_of(roots[i]@).contains(id))
}

/// The set of file identities found under the media roots.
pub struct MediaIndex {
    keys: HashSet<u128>,
}

impl View for MediaIndex {
    type V = Set<FileIdentity>;

    closed spec fn view(&self) -> Set<FileIdentity> {
        Set::new(|id: FileIdentity| self.keys@.contains(identity_key(id)))
    }
}

impl MediaIndex {
    /// An empty index.
    pub fn new() -> (r: MediaIndex)
        ensures
            r@ == Set::<FileIdentity>::empty(),
    {
        let r = MediaIndex { keys: HashSet::new() };
        assert(r@ =~= Set::<FileIdentity>::empty());
        r
    }

    /// Whether `id` is in the index.
    pub fn contains(&self, id: FileIdentity) -> (r: bool)
        ensures
            r == self@.contains(id),
    {
        let k = key_of(id);
        self.keys.contains(&k)
    }

    /// Adds one identity.
    pub fn insert(&mut self, id: FileIdentity)
        ensures
            final(self)@ == old(self)@.insert(id),
    {
        let k = key_of(id);
        self.keys.insert(k);
        assert forall|x: FileIdentity| final(self)@.contains(x) <==> old(self)@.insert(id).contains(x) by {
            lemma_identity_key_injective(x, id);
        }
        assert(final(self)@ =~= old(self)@.insert(id));
    }

    /// Adds the identities that a scan of one media root found; skipped
    /// entries leave the index as it is.
    pub fn add_media_entries(&mut self, entries: &Vec<Resolution>)
        ensures
            final(self)@ == old(self)@.union(identities_of(entries@)),
    {
        let mut j: usize = 0;
        while j < entries.len()
            invariant
                j <= entries@.len(),
                self@ == old(self)@.union(identities_of(entries@.take(j as int))),
            decreases entries@.len() - j,
        {
            let ghost before = self@;
            match entries[j] {
                Resolution::Identity(id) => {
                    self.insert(id);
                },
                Resolution::Skipped(_) => {},
            }
            proof {
                let prev = entries@.take(j as int);
                let next = entries@.take(j + 1);
                assert forall|x: FileIdentity| identities_of(next).contains(x)
                    <==> identities_of(prev).contains(x) || entries@[j as int].gives(x) by {
                    if identities_of(next).contains(x) {
                        let w = choose|w: int| 0 <= w < next.len() && #[trigger] next[w].gives(x);
                        if w < j {
                            assert(prev[w] == next[w]);
                        }
                    }
                    if identities_of(prev).contains(x) {
                        let w = choose|w: int| 0 <= w < prev.len() && #[trigger] prev[w].gives(x);
                        assert(next[w] == prev[w]);
                    }
                    if entries@[j as int].gives(x) {
                        assert(next[j as int].gives(x));
                    }
                }
                assert(self@ =~= old(self)@.union(identities_of(next)));
            }
            j += 1;
        }
        assert(entries@.take(j as int) =~= entries@);
    }

    /// Builds the index from the scans of every media root.
    pub fn build(roots: &Vec<Vec<Resolution>>) -> (r: MediaIndex)
        ensures
            r@ == indexed(roots@),
    {
        let mut r = MediaIndex::new();
        let mut i: usize = 0;
        while i < roots.len()
            invariant
                i <= roots@.len(),
                r@ == indexed(roots@.take(i as int)),
            decreases roots@.len() - i,
        {
            r.add_media_entries(&roots[i]);
            proof {
                let prev = roots@.take(i as int);
                let next = roots@.take(i + 1);
                assert forall|x: FileIdentity| indexed(next).contains(x)
                    <==> indexed(prev).contains(x) || identities_of(roots@[i as int]@).contains(x) by {
                    if indexed(next).contains(x) {
                        let w = choose|w: int| 0 <= w < next.len() && #[trigger] identities_of(next[w]@).contains(x);
                        if w < i {
                            assert(prev[w] == next[w]);
                        }
                    }
                    if indexed(prev).contains(x) {
                        let w = choose|w: int| 0 <= w < prev.len() && #[trigger] identities_of(prev[w]@).contains(x);
                        assert(next[w] == prev[w]);
                    }
                    if identities_of(roots@[i as int]@).contains(x) {
                        assert(next[i as int] == roots@[i as int]);
                    }
                }
                assert(r@ =~= indexed(next));
            }
            i += 1;
        }
        assert(roots@.take(i as int) =~= roots@);
        r
    }
}

/// Scanning the media roots in another order builds the same index: the
/// index depends on which roots were scanned, not on their order.
pub proof fn lemma_index_ignores_root_order(roots1: Seq<Vec<Resolution>>, roots2: Seq<Vec<Resolution>>)
    requires
        roots1.to_multiset() == roots2.to_multiset(),
    ensures
        indexed(roots1) == indexed(roots2),
{
    broadcast use vstd::seq_lib::group_to_multiset_ensures;

    assert forall|x: FileIdentity| indexed(roots1).contains(x) implies indexed(roots2).contains(x) by {
        let w = choose|w: int| 0 <= w < roots1.len() && #[trigger] identities_of(roots1[w]@).contains(x);
        assert(roots1.contains(roots1[w]));
        assert(roots1.to_multiset().count(roots1[w]) > 0);
        assert(roots2.contains(roots1[w]));
        let v = choose|v: int| 0 <= v < roots2.len() && roots2[v] == roots1[w];
        assert(identities_of(roots2[v]@).contains(x));
    }
    assert forall|x: FileIdentity| indexed(roots2).contains(x) implies indexed(roots1).contains(x) by {
        let w = choose|w: int| 0 <= w < roots2.len() && #[trigger] identities_of(roots2[w]@).contains(x);
        assert(roots2.contains(roots2[w]));
        assert(roots2.to_multiset().count(roots2[w]) > 0);
        assert(roots1.contains(roots2[w]));
        let v = choose|v: int| 0 <= v < roots1.len() && roots1[v] == roots2[w];
        assert(identities_of(roots1[v]@).contains(x));
    }
    assert(indexed(roots1) =~= indexed(roots2));
}

} // verus!
