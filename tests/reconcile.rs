use torrent_pruner::config::{download_dirs, eligibility_policy, media_dirs, path, MATCH_POLICY, MIN_SEED_TIME, URL, USER};
use torrent_pruner::identity::{key_of, FileIdentity, Resolution, SkipReason};
use torrent_pruner::index::MediaIndex;
use torrent_pruner::inventory::{
    collect_identities, filter_eligible, torrent_is_eligible, torrent_record, EligibilityPolicy, RawTorrent, Unusable,
};
use torrent_pruner::matching::{partition_by_match, MatchPolicy, TorrentRecord};
use torrent_pruner::paths::{is_listed_dir, keys_equal, normalize_path, path_is_absolute};
use torrent_pruner::removal::{confirmation_accepted, removal_gate, Gate, RemovalBatch};

fn fid(dev: u64, ino: u64) -> FileIdentity {
    FileIdentity { dev, ino }
}

fn record(id: i64, name: &str, ids: Vec<FileIdentity>) -> TorrentRecord {
    TorrentRecord { id, name: name.to_string(), identities: ids }
}

fn raw(id: i64, dir: &str, error: &str, seeded: i64) -> RawTorrent {
    RawTorrent {
        id: Some(id),
        name: Some(format!("t{}", id)),
        download_dir: Some(dir.to_string()),
        error_string: Some(error.to_string()),
        seconds_seeding: Some(seeded),
        files: Some(vec!["a.mkv".to_string()]),
    }
}

fn policy() -> EligibilityPolicy {
    EligibilityPolicy { download_roots: vec!["/dl/one".to_string(), "/dl/two".to_string()], min_seed_seconds: 100 }
}

fn index_of(ids: &[FileIdentity]) -> MediaIndex {
    let mut index = MediaIndex::new();
    for id in ids {
        index.insert(*id);
    }
    index
}

fn names(ts: &[TorrentRecord]) -> Vec<String> {
    ts.iter().map(|t| t.name.clone()).collect()
}

#[test]
fn scenario_any_file_partition() {
    let a = fid(1, 10);
    let b = fid(1, 11);
    let c = fid(1, 12);
    let index = index_of(&[a, b]);
    let torrents = vec![record(1, "T1", vec![a]), record(2, "T2", vec![c]), record(3, "T3", vec![])];
    let (matched, unmatched) = partition_by_match(&index, MatchPolicy::AnyFile, torrents);
    assert_eq!(names(&matched), vec!["T1"]);
    assert_eq!(names(&unmatched), vec!["T2", "T3"]);
}

#[test]
fn partial_match_counts_under_any_file_only() {
    let a = fid(1, 10);
    let c = fid(1, 12);
    let index = index_of(&[a]);
    let t = record(1, "T", vec![a, c]);
    assert!(!t.unmatched(&index));
    assert!(t.is_archived(&index, MatchPolicy::AnyFile));
    assert!(!t.is_archived(&index, MatchPolicy::AllFiles));
    let full = record(2, "F", vec![a]);
    assert!(full.fully_archived(&index));
    let empty = record(3, "E", vec![]);
    assert!(empty.unmatched(&index));
    assert!(!empty.fully_archived(&index));
}

#[test]
fn partition_ignores_torrent_order() {
    let a = fid(1, 10);
    let index = index_of(&[a]);
    let first = vec![record(1, "T1", vec![a]), record(2, "T2", vec![fid(1, 3)]), record(3, "T3", vec![a])];
    let second = vec![record(3, "T3", vec![a]), record(2, "T2", vec![fid(1, 3)]), record(1, "T1", vec![a])];
    let (m1, u1) = partition_by_match(&index, MatchPolicy::AnyFile, first);
    let (m2, u2) = partition_by_match(&index, MatchPolicy::AnyFile, second);
    let mut n1 = names(&m1);
    let mut n2 = names(&m2);
    n1.sort();
    n2.sort();
    assert_eq!(n1, n2);
    assert_eq!(names(&u1), names(&u2));
}

#[test]
fn index_identity_is_device_and_inode() {
    let index = index_of(&[fid(1, 5)]);
    assert!(index.contains(fid(1, 5)));
    assert!(!index.contains(fid(2, 5)));
    assert!(!index.contains(fid(1, 6)));
    assert_eq!(key_of(fid(1, 5)), (1u128 << 64) + 5);
    assert_eq!(key_of(fid(u64::MAX, u64::MAX)), u128::MAX);
}

#[test]
fn index_skips_non_regular_and_unreadable_entries() {
    let mut index = MediaIndex::new();
    index.add_media_entries(&vec![
        Resolution::Identity(fid(1, 1)),
        Resolution::Skipped(SkipReason::NotRegularFile),
        Resolution::Skipped(SkipReason::Unreadable),
        Resolution::Identity(fid(1, 2)),
    ]);
    assert!(index.contains(fid(1, 1)));
    assert!(index.contains(fid(1, 2)));
    assert!(!index.contains(fid(1, 3)));
}

#[test]
fn index_ignores_root_order() {
    let r1 = vec![Resolution::Identity(fid(1, 1))];
    let r2 = vec![Resolution::Identity(fid(2, 2)), Resolution::Skipped(SkipReason::Unreadable)];
    let x = MediaIndex::build(&vec![r1.clone(), r2.clone()]);
    let y = MediaIndex::build(&vec![r2, r1]);
    for id in [fid(1, 1), fid(2, 2), fid(3, 3)] {
        assert_eq!(x.contains(id), y.contains(id));
    }
    assert!(x.contains(fid(2, 2)));
}

#[test]
fn torrent_with_error_is_not_eligible() {
    let p = policy();
    assert!(torrent_is_eligible(&raw(1, "/dl/one", "", 100), &p));
    assert!(!torrent_is_eligible(&raw(2, "/dl/one", "tracker error", 1000), &p));
    let kept = filter_eligible(vec![raw(1, "/dl/one", "", 500), raw(2, "/dl/one", "tracker error", 500)], &p);
    assert_eq!(kept.len(), 1);
    assert_eq!(kept[0].id, Some(1));
}

#[test]
fn eligibility_needs_managed_root_and_seed_time() {
    let p = policy();
    assert!(!torrent_is_eligible(&raw(1, "/dl/three", "", 500), &p));
    assert!(!torrent_is_eligible(&raw(1, "/dl/one", "", 99), &p));
    assert!(torrent_is_eligible(&raw(1, "/dl//two/", "", 500), &p));
    let mut missing = raw(1, "/dl/one", "", 500);
    missing.error_string = None;
    assert!(!torrent_is_eligible(&missing, &p));
    let mut unseeded = raw(1, "/dl/one", "", 500);
    unseeded.seconds_seeding = None;
    assert!(!torrent_is_eligible(&unseeded, &p));
}

#[test]
fn filter_is_idempotent() {
    let p = policy();
    let list = || vec![raw(1, "/dl/one", "", 500), raw(2, "/x", "", 500), raw(3, "/dl/two", "", 100), raw(4, "/dl/two", "e", 500)];
    let once = filter_eligible(list(), &p);
    let ids: Vec<Option<i64>> = once.iter().map(|t| t.id).collect();
    assert_eq!(ids, vec![Some(1), Some(3)]);
    let twice = filter_eligible(once, &p);
    let ids2: Vec<Option<i64>> = twice.iter().map(|t| t.id).collect();
    assert_eq!(ids2, ids);
}

#[test]
fn record_keeps_resolved_identities() {
    let t = raw(7, "/dl/one", "", 500);
    let res = vec![
        Resolution::Skipped(SkipReason::Unreadable),
        Resolution::Identity(fid(1, 2)),
        Resolution::Skipped(SkipReason::NotRegularFile),
        Resolution::Identity(fid(1, 3)),
    ];
    let rec = match torrent_record(&t, &res) {
        Ok(rec) => rec,
        Err(_) => panic!("record refused"),
    };
    assert_eq!(rec.id, 7);
    assert_eq!(rec.name, "t7");
    assert_eq!(rec.identities, vec![fid(1, 2), fid(1, 3)]);
    assert_eq!(collect_identities(&vec![Resolution::Skipped(SkipReason::Unreadable)]), vec![]);
}

#[test]
fn record_refuses_missing_id_or_files() {
    let mut no_id = raw(1, "/dl/one", "", 500);
    no_id.id = None;
    assert!(matches!(torrent_record(&no_id, &vec![]), Err(Unusable::MissingId)));
    let mut no_files = raw(1, "/dl/one", "", 500);
    no_files.files = None;
    assert!(matches!(torrent_record(&no_files, &vec![]), Err(Unusable::MissingFiles)));
    let mut no_name = raw(1, "/dl/one", "", 500);
    no_name.name = None;
    match torrent_record(&no_name, &vec![]) {
        Ok(rec) => assert_eq!(rec.name, "UNKNOWN"),
        Err(_) => panic!("record refused"),
    }
}

#[test]
fn paths_normalize() {
    let key = normalize_path("/a//./b/.");
    assert!(key.absolute);
    assert_eq!(key.components, vec![b"a".to_vec(), b"b".to_vec()]);
    let key = normalize_path("a/.hidden/..");
    assert!(!key.absolute);
    assert_eq!(key.components, vec![b"a".to_vec(), b".hidden".to_vec(), b"..".to_vec()]);
    let root = normalize_path("///");
    assert!(root.absolute);
    assert!(root.components.is_empty());
    assert!(!normalize_path("").absolute);
    assert!(keys_equal(&normalize_path("/dl/./one"), &normalize_path("/dl/one/")));
    assert!(!keys_equal(&normalize_path("/dl/one"), &normalize_path("dl/one")));
    assert!(!keys_equal(&normalize_path("/dl/one"), &normalize_path("/dl/one/x")));
    assert!(path_is_absolute("/a"));
    assert!(!path_is_absolute("a/b"));
    assert!(!path_is_absolute(""));
    let roots = vec!["/dl/one/".to_string()];
    assert!(is_listed_dir("/dl//one", &roots));
    assert!(is_listed_dir("/dl/./one", &roots));
    assert!(!is_listed_dir("/dl/on", &roots));
}

#[test]
fn config_paths() {
    assert_eq!(download_dirs(), vec!["/path/to/torrent/downloads/dir1", "/path/to/torrent/downloads/dir2"]);
    assert_eq!(media_dirs().len(), 3);
    assert_eq!(media_dirs()[2], "/path/to/media/dir3");
    assert_eq!(path("/srv/media", true), "/srv/media");
    assert_eq!(URL, "http://127.0.0.1:9091/transmission/rpc");
    assert_eq!(USER, "username");
    assert_eq!(MATCH_POLICY, MatchPolicy::AnyFile);
    let p = eligibility_policy();
    assert_eq!(p.min_seed_seconds, MIN_SEED_TIME);
    assert_eq!(MIN_SEED_TIME, 604800);
}

#[test]
fn confirmation_answers() {
    assert!(confirmation_accepted(&"y\n".to_string()));
    assert!(confirmation_accepted(&"Y\n".to_string()));
    assert!(confirmation_accepted(&"\n".to_string()));
    assert!(!confirmation_accepted(&"n\n".to_string()));
    assert!(!confirmation_accepted(&"yes\n".to_string()));
}

#[test]
fn gate_before_removal() {
    assert_eq!(removal_gate(&vec![], true), Gate::NoCandidates);
    assert_eq!(removal_gate(&vec![record(1, "a", vec![])], true), Gate::AskOperator);
    assert_eq!(removal_gate(&vec![record(1, "a", vec![])], false), Gate::Proceed);
}

#[test]
fn declined_confirmation_issues_nothing() {
    let matched = vec![record(1, "a", vec![]), record(2, "b", vec![])];
    let no = "n\n".to_string();
    let batch = RemovalBatch::plan(&matched, true, Some(&no));
    assert_eq!(batch.next_target(), None);
    assert!(batch.is_done());
    assert!(batch.outcomes().is_empty());
    let unanswered = RemovalBatch::plan(&matched, true, None);
    assert!(unanswered.targets().is_empty());
    let yes = "\n".to_string();
    let accepted = RemovalBatch::plan(&matched, true, Some(&yes));
    assert_eq!(accepted.targets(), &vec![1, 2]);
    let unasked = RemovalBatch::plan(&matched, false, None);
    assert_eq!(unasked.targets(), &vec![1, 2]);
}

#[test]
fn failed_removal_does_not_stop_batch() {
    let matched = vec![record(1, "a", vec![]), record(2, "b", vec![]), record(3, "c", vec![])];
    let mut batch = RemovalBatch::plan(&matched, false, None);
    let results = vec![None, Some("connection reset".to_string()), None];
    let mut issued = Vec::new();
    for result in results {
        let id = batch.next_target().expect("a target is due");
        issued.push(id);
        batch.record(result);
    }
    assert_eq!(issued, vec![1, 2, 3]);
    assert!(batch.is_done());
    let outcomes = batch.outcomes();
    assert_eq!(outcomes.len(), 3);
    assert_eq!(outcomes[0].id, 1);
    assert_eq!(outcomes[0].error, None);
    assert_eq!(outcomes[1].id, 2);
    assert_eq!(outcomes[1].error, Some("connection reset".to_string()));
    assert_eq!(outcomes[2].id, 3);
    assert_eq!(outcomes[2].error, None);
}
