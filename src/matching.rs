use crate::identity::FileIdentity;
use crate::index::{identities_of, indexed, MediaIndex};
use crate::identity::Resolution;
use vstd::multiset::Multiset;
use vstd::prelude::*;

verus! {

/// How much of a torrent must be found in the media library before the
/// torrent counts as archived.
///
/// `AnyFile` treats one shared file as proof that the whole torrent was
/// imported, on the grounds that imports are all-or-nothing per completed
/// torrent. `AllFiles` is the stricter choice: every resolved file must be in
/// the library. Under both, a torrent with no resolved file is unmatched.
#[derive(Clone, Copy, Debug, PartialEq, Eq, Structural)]
pub enum MatchPolicy {
    AnyFile,
    AllFiles,
}

/// A torrent that passed the eligibility filter, with the identities of those
/// of its files that could be resolved on disk.
pub struct TorrentRecord {
    /// The download client's identifier, used for the removal command.
    pub id: i64,
    pub name: String,
    pub identities: Vec<FileIdentity>,
}

/// Whether a torrent with file identities `ids` counts as archived in `index`.
pub open spec fn is_matched(index: Set<FileIdentity>, policy: MatchPolicy, ids: Seq<FileIdentity>) -> bool {
    match policy {
        MatchPolicy::AnyFile => exists|i: int| 0 <= i < ids.len() && index.contains(#[trigger] ids[i]),
        MatchPolicy::AllFiles => ids.len() > 0 && forall|i: int| 0 <= i < ids.len() ==> index.contains(#[trigger] ids[i]),
    }
}

/// The torrents of `ts` whose classification is `matched`, in their order.
pub open spec fn classified(index: Set<FileIdentity>, policy: MatchPolicy, ts: Seq<TorrentRecord>, matched: bool) -> Seq<TorrentRecord>
    decreases ts.len(),
{
    if ts.len() == 0 {
        Seq::empty()
    } else {
        let rest = classified(index, policy, ts.drop_last(), matched);
        if is_matched(index, policy, ts.last().identities@) == matched {
            rest.push(ts.last())
        } else {
            rest
        }
    }
}

impl TorrentRecord {
    /// Whether none of the torrent's files is in the media index.
    pub fn unmatched(&self, media: &MediaIndex) -> (r: bool)
        ensures
            r == !is_matched(media@, MatchPolicy::AnyFile, self.identities@),
    {
        let mut i: usize = 0;
        while i < self.identities.len()
            invariant
                i <= self.identities@.len(),
                forall|k: int| 0 <= k < i ==> !media@.contains(#[trigger] self.identities@[k]),
            decreases self.identities@.len() - i,
        {
            if media.contains(self.identities[i]) {
                return false;
            }
            i += 1;
        }
        true
    }

    /// Whether every file of the torrent is in the media index, the torrent
    /// having at least one resolved file.
    pub fn fully_archived(&self, media: &MediaIndex) -> (r: bool)
        ensures
            r == is_matched(media@, MatchPolicy::AllFiles, self.identities@),
    {
        if self.identities.len() == 0 {
            return false;
        }
        let mut i: usize = 0;
        while i < self.identities.len()
            invariant
                i <= self.identities@.len(),
                forall|k: int| 0 <= k < i ==> media@.contains(#[trigger] self.identities@[k]),
            decreases self.identities@.len() - i,
        {
            if !media.contains(self.identities[i]) {
                return false;
            }
            i += 1;
        }
        true
    }

    /// Whether the torrent counts as archived under `policy`.
    pub fn is_archived(&self, media: &MediaIndex, policy: MatchPolicy) -> (r: bool)
        ensures
            r == is_matched(media@, policy, self.identities@),
    {
        match policy {
            MatchPolicy::AnyFile => !self.unmatched(media),
            MatchPolicy::AllFiles => self.fully_archived(media),
        }
    }
}

/// Splits `torrents` into the matched ones (removal candidates) and the
/// unmatched ones, each part in the input's order.
pub fn partition_by_match(media: &MediaIndex, policy: MatchPolicy, torrents: Vec<TorrentRecord>) -> (r: (
    Vec<TorrentRecord>,
    Vec<TorrentRecord>,
))
    ensures
        r.0@ == classified(media@, policy, torrents@, true),
        r.1@ == classified(media@, policy, torrents@, false),
{
    let ghost all = torrents@;
    let ghost mut done: Seq<TorrentRecord> = Seq::empty();
    let mut rest = torrents;
    let mut matched: Vec<TorrentRecord> = Vec::new();
    let mut unmatched: Vec<TorrentRecord> = Vec::new();
    while rest.len() > 0
        invariant
            all == done + rest@,
            matched@ == classified(media@, policy, done, true),
            unmatched@ == classified(media@, policy, done, false),
        decreases rest@.len(),
    {
        let t = rest.remove(0);
        let archived = t.is_archived(media, policy);
        proof {
            assert(done.push(t).drop_last() =~= done);
            assert(all =~= done.push(t) + rest@);
            done = done.push(t);
        }
        if archived {
            matched.push(t);
        } else {
            unmatched.push(t);
        }
    }
    assert(done =~= all);
    (matched, unmatched)
}

/// A torrent listed in `ts` is in the part that its own classification names.
pub proof fn lemma_classified_contains(index: Set<FileIdentity>, policy: MatchPolicy, ts: Seq<TorrentRecord>, t: TorrentRecord)
    requires
        ts.contains(t),
    ensures
        classified(index, policy, ts, is_matched(index, policy, t.identities@)).contains(t),
    decreases ts.len(),
{
    let b = is_matched(index, policy, t.identities@);
    if ts.last() == t {
        assert(classified(index, policy, ts, b).last() == t);
    } else {
        let k = choose|k: int| 0 <= k < ts.len() && ts[k] == t;
        assert(ts.drop_last()[k] == t);
        lemma_classified_contains(index, policy, ts.drop_last(), t);
        let sub = classified(index, policy, ts.drop_last(), b);
        let j = choose|j: int| 0 <= j < sub.len() && sub[j] == t;
        if is_matched(index, policy, ts.last().identities@) == b {
            assert(sub.push(ts.last())[j] == t);
        }
    }
}

/// A file that a media root's scan found and that a torrent also holds (a hard
/// link) makes that torrent a removal candidate under the any-file policy.
pub proof fn lemma_shared_file_marks_torrent_matched(
    roots: Seq<Vec<Resolution>>,
    torrents: Seq<TorrentRecord>,
    t: TorrentRecord,
    id: FileIdentity,
)
    requires
        exists|i: int| 0 <= i < roots.len() && #[trigger] identities_of(roots[i]@).contains(id),
        torrents.contains(t),
        t.identities@.contains(id),
    ensures
        classified(indexed(roots), MatchPolicy::AnyFile, torrents, true).contains(t),
{
    let k = choose|k: int| 0 <= k < t.identities@.len() && t.identities@[k] == id;
    assert(indexed(roots).contains(t.identities@[k]));
    lemma_classified_contains(indexed(roots), MatchPolicy::AnyFile, torrents, t);
}

/// A torrent none of whose resolved files is in the index (in particular one
/// with no resolved file) is unmatched, whatever the policy.
pub proof fn lemma_absent_files_leave_torrent_unmatched(
    index: Set<FileIdentity>,
    policy: MatchPolicy,
    torrents: Seq<TorrentRecord>,
    t: TorrentRecord,
)
    requires
        torrents.contains(t),
        forall|i: int| 0 <= i < t.identities@.len() ==> !index.contains(#[trigger] t.identities@[i]),
    ensures
        classified(index, policy, torrents, false).contains(t),
        !classified(index, policy, torrents, true).contains(t),
{
    if t.identities@.len() > 0 {
        assert(!index.contains(t.identities@[0]));
    }
    lemma_classified_contains(index, policy, torrents, t);
    lemma_classified_members(index, policy, torrents, true);
}

/// Every torrent in a part has that part's classification.
pub proof fn lemma_classified_members(index: Set<FileIdentity>, policy: MatchPolicy, ts: Seq<TorrentRecord>, matched: bool)
    ensures
        forall|j: int| 0 <= j < classified(index, policy, ts, matched).len()
            ==> is_matched(index, policy, (#[trigger] classified(index, policy, ts, matched)[j]).identities@) == matched,
    decreases ts.len(),
{
    if ts.len() > 0 {
        lemma_classified_members(index, policy, ts.drop_last(), matched);
        let sub = classified(index, policy, ts.drop_last(), matched);
        let whole = classified(index, policy, ts, matched);
        assert forall|j: int| 0 <= j < whole.len()
            implies is_matched(index, policy, (#[trigger] whole[j]).identities@) == matched by {
            if j < sub.len() {
                assert(whole[j] == sub[j]);
            }
        }
    }
}

/// How often a torrent occurs in a part: as often as in the input when its
/// classification is the part's, else never.
pub proof fn lemma_classified_count(index: Set<FileIdentity>, policy: MatchPolicy, ts: Seq<TorrentRecord>, matched: bool, t: TorrentRecord)
    ensures
        classified(index, policy, ts, matched).to_multiset().count(t)
            == if is_matched(index, policy, t.identities@) == matched { ts.to_multiset().count(t) } else { 0 },
    decreases ts.len(),
{
    broadcast use vstd::seq_lib::group_to_multiset_ensures;

    if ts.len() == 0 {
        assert(ts.to_multiset() =~= Multiset::empty());
        assert(classified(index, policy, ts, matched).to_multiset() =~= Multiset::empty());
    } else {
        lemma_classified_count(index, policy, ts.drop_last(), matched, t);
        assert(ts.drop_last().push(ts.last()) =~= ts);
    }
}

/// The partition does not depend on the order of the torrent list: a
/// reordered list gives each part the same torrents, as many times each.
pub proof fn lemma_partition_ignores_torrent_order(
    index: Set<FileIdentity>,
    policy: MatchPolicy,
    ts1: Seq<TorrentRecord>,
    ts2: Seq<TorrentRecord>,
    matched: bool,
)
    requires
        ts1.to_multiset() == ts2.to_multiset(),
    ensures
        classified(index, policy, ts1, matched).to_multiset() == classified(index, policy, ts2, matched).to_multiset(),
{
    assert forall|t: TorrentRecord| classified(index, policy, ts1, matched).to_multiset().count(t)
        == classified(index, policy, ts2, matched).to_multiset().count(t) by {
        lemma_classified_count(index, policy, ts1, matched, t);
        lemma_classified_count(index, policy, ts2, matched, t);
    }
    assert(classified(index, policy, ts1, matched).to_multiset() =~= classified(index, policy, ts2, matched).to_multiset());
}

} // verus!
