use crate::identity::{FileIdentity, Resolution};
use crate::matching::TorrentRecord;
use crate::paths::{is_listed_dir, same_path};
use vstd::prelude::*;

verus! {

/// One torrent as the download client reports it; a field the client left
/// out is `None`.
pub struct RawTorrent {
    pub id: Option<i64>,
    pub name: Option<String>,
    pub download_dir: Option<String>,
    pub error_string: Option<String>,
    pub seconds_seeding: Option<i64>,
    /// The paths of the torrent's files, relative to its download directory.
    pub files: Option<Vec<String>>,
}

/// Which torrents are considered for matching at all.
pub struct EligibilityPolicy {
    /// The download directories that this run manages.
    pub download_roots: Vec<String>,
    /// How long a torrent must have seeded, in seconds.
    pub min_seed_seconds: i64,
}

/// Why a torrent that passed the filter cannot be turned into a record.
#[derive(Clone, Copy, Debug, PartialEq, Eq, Structural)]
pub enum Unusable {
    /// The client gave no identifier, so no removal command could target it.
    MissingId,
    /// The client gave no file list.
    MissingFiles,
}

/// A torrent is eligible when the client reported an empty error string, its
/// download directory is one of `roots`, and it has seeded at least
/// `min_seed` seconds. A field the client left out fails its condition.
pub open spec fn is_eligible(t: RawTorrent, roots: Seq<String>, min_seed: i64) -> bool {
    &&& match t.error_string {
        Some(e) => e@.len() == 0,
        None => false,
    }
    &&& match t.download_dir {
        Some(d) => exists|i: int| 0 <= i < roots.len() && same_path(#[trigger] roots[i]@, d@),
        None => false,
    }
    &&& match t.seconds_seeding {
        Some(s) => s >= min_seed,
        None => false,
    }
}

/// The eligible torrents of `ts`, in their order.
pub open spec fn eligible(ts: Seq<RawTorrent>, roots: Seq<String>, min_seed: i64) -> Seq<RawTorrent>
    decreases ts.len(),
{
    if ts.len() == 0 {
        Seq::empty()
    } else {
        let rest = eligible(ts.drop_last(), roots, min_seed);
        if is_eligible(ts.last(), roots, min_seed) {
            rest.push(ts.last())
        } else {
            rest
        }
    }
}

/// The identities carried by `rs`, in their order; skipped entries are left out.
pub open spec fn resolved_identities(rs: Seq<Resolution>) -> Seq<FileIdentity>
    decreases rs.len(),
{
    if rs.len() == 0 {
        Seq::empty()
    } else {
        let rest = resolved_identities(rs.drop_last());
        match rs.last() {
            Resolution::Identity(id) => rest.push(id),
            Resolution::Skipped(_) => rest,
        }
    }
}

/// The name a record carries: the client's, or `UNKNOWN` where it gave none.
pub open spec fn record_name(t: RawTorrent) -> Seq<char> {
    match t.name {
        Some(n) => n@,
        None => "UNKNOWN"@,
    }
}

/// Whether `t` passes the eligibility filter.
pub fn torrent_is_eligible(t: &RawTorrent, policy: &EligibilityPolicy) -> (r: bool)
    ensures
        r == is_eligible(*t, policy.download_roots@, policy.min_seed_seconds),
{
    let error_free = match &t.error_string {
        Some(e) => e.as_str().is_empty(),
        None => false,
    };
    let managed = match &t.download_dir {
        Some(d) => is_listed_dir(d.as_str(), &policy.download_roots),
        None => false,
    };
    let seeded = match t.seconds_seeding {
        Some(s) => s >= policy.min_seed_seconds,
        None => false,
    };
    error_free && managed && seeded
}

/// Keeps the eligible torrents, in their order.
pub fn filter_eligible(torrents: Vec<RawTorrent>, policy: &EligibilityPolicy) -> (r: Vec<RawTorrent>)
    ensures
        r@ == eligible(torrents@, policy.download_roots@, policy.min_seed_seconds),
{
    let ghost roots = policy.download_roots@;
    let ghost min_seed = policy.min_seed_seconds;
    let ghost all = torrents@;
    let ghost mut done: Seq<RawTorrent> = Seq::empty();
    let mut rest = torrents;
    let mut kept: Vec<RawTorrent> = Vec::new();
    while rest.len() > 0
        invariant
            all == done + rest@,
            roots == policy.download_roots@,
            min_seed == policy.min_seed_seconds,
            kept@ == eligible(done, roots, min_seed),
        decreases rest@.len(),
    {
        let t = rest.remove(0);
        let keep = torrent_is_eligible(&t, policy);
        proof {
            assert(done.push(t).drop_last() =~= done);
            assert(all =~= done.push(t) + rest@);
            done = done.push(t);
        }
        if keep {
            kept.push(t);
        }
    }
    assert(done =~= all);
    kept
}

/// The identities that the inspection of a torrent's files produced, in order.
pub fn collect_identities(resolutions: &Vec<Resolution>) -> (r: Vec<FileIdentity>)
    ensures
        r@ == resolved_identities(resolutions@),
{
    let mut out: Vec<FileIdentity> = Vec::new();
    let mut i: usize = 0;
    while i < resolutions.len()
        invariant
            i <= resolutions@.len(),
            out@ == resolved_identities(resolutions@.take(i as int)),
        decreases resolutions@.len() - i,
    {
        match resolutions[i] {
            Resolution::Identity(id) => out.push(id),
            Resolution::Skipped(_) => {},
        }
        assert(resolutions@.take(i + 1).drop_last() =~= resolutions@.take(i as int));
        i += 1;
    }
    assert(resolutions@.take(i as int) =~= resolutions@);
    out
}

/// Turns an eligible torrent and the inspection of its files into a record.
///
/// A torrent without an identifier or without a file list is refused. The
/// record keeps the client's name, or `UNKNOWN` where it gave none, and the
/// identities of the files that resolved to regular files.
pub fn torrent_record(t: &RawTorrent, resolutions: &Vec<Resolution>) -> (r: Result<TorrentRecord, Unusable>)
    ensures
        t.id is None ==> r == Err::<TorrentRecord, Unusable>(Unusable::MissingId),
        t.id is Some && t.files is None ==> r == Err::<TorrentRecord, Unusable>(Unusable::MissingFiles),
        t.id is Some && t.files is Some ==> (r matches Ok(rec) && rec.id == t.id->0
            && rec.name@ == record_name(*t) && rec.identities@ == resolved_identities(resolutions@)),
{
    let id = match t.id {
        Some(id) => id,
        None => {
            return Err(Unusable::MissingId);
        },
    };
    if t.files.is_none() {
        return Err(Unusable::MissingFiles);
    }
    let name = match &t.name {
        Some(n) => n.clone(),
        None => "UNKNOWN".to_owned(),
    };
    Ok(TorrentRecord { id, name, identities: collect_identities(resolutions) })
}

/// Every torrent that the filter keeps is eligible.
pub proof fn lemma_eligible_members(ts: Seq<RawTorrent>, roots: Seq<String>, min_seed: i64)
    ensures
        forall|j: int| 0 <= j < eligible(ts, roots, min_seed).len()
            ==> is_eligible(#[trigger] eligible(ts, roots, min_seed)[j], roots, min_seed),
    decreases ts.len(),
{
    if ts.len() > 0 {
        lemma_eligible_members(ts.drop_last(), roots, min_seed);
        let sub = eligible(ts.drop_last(), roots, min_seed);
        let whole = eligible(ts, roots, min_seed);
        assert forall|j: int| 0 <= j < whole.len() implies is_eligible(#[trigger] whole[j], roots, min_seed) by {
            if j < sub.len() {
                assert(whole[j] == sub[j]);
            }
        }
    }
}

/// A list whose torrents are all eligible passes the filter unchanged.
pub proof fn lemma_eligible_keeps_eligible(ts: Seq<RawTorrent>, roots: Seq<String>, min_seed: i64)
    requires
        forall|j: int| 0 <= j < ts.len() ==> is_eligible(#[trigger] ts[j], roots, min_seed),
    ensures
        eligible(ts, roots, min_seed) == ts,
    decreases ts.len(),
{
    if ts.len() > 0 {
        let prefix = ts.drop_last();
        assert forall|j: int| 0 <= j < prefix.len() implies is_eligible(#[trigger] prefix[j], roots, min_seed) by {
            assert(prefix[j] == ts[j]);
        }
        lemma_eligible_keeps_eligible(prefix, roots, min_seed);
        assert(is_eligible(ts[ts.len() - 1], roots, min_seed));
        assert(prefix.push(ts.last()) =~= ts);
    }
}

/// Filtering is idempotent: running the filter again over what it kept, with
/// the same policy, keeps the same torrents.
pub proof fn lemma_filter_idempotent(ts: Seq<RawTorrent>, roots: Seq<String>, min_seed: i64)
    ensures
        eligible(eligible(ts, roots, min_seed), roots, min_seed) == eligible(ts, roots, min_seed),
{
    lemma_eligible_members(ts, roots, min_seed);
    lemma_eligible_keeps_eligible(eligible(ts, roots, min_seed), roots, min_seed);
}

} // verus!
