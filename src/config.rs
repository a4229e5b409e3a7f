use crate::inventory::EligibilityPolicy;
use crate::matching::MatchPolicy;
use crate::paths::is_absolute;
use vstd::prelude::*;

verus! {

/// The download client's RPC endpoint.
pub const URL: &'static str = "http://127.0.0.1:9091/transmission/rpc";

/// The user name for the download client; the password comes from the
/// environment.
pub const USER: &'static str = "username";

/// How much of a torrent must be in the media library before it is removed.
pub const MATCH_POLICY: MatchPolicy = MatchPolicy::AnyFile;

/// Ask the operator before removing torrents.
pub const CONFIRM: bool = true;

/// How long a torrent must have seeded before it may go, in seconds (one
/// week), so that leaving the swarm is no hit-and-run.
pub const MIN_SEED_TIME: i64 = 604800;

/// The directories that the download client saves into.
pub const DOWNLOAD_DIR_1: &'static str = "/path/to/torrent/downloads/dir1";
pub const DOWNLOAD_DIR_2: &'static str = "/path/to/torrent/downloads/dir2";

/// The roots of the media library.
pub const MEDIA_DIR_1: &'static str = "/path/to/media/dir1";
pub const MEDIA_DIR_2: &'static str = "/path/to/media/dir2";
pub const MEDIA_DIR_3: &'static str = "/path/to/media/dir3";

/// The download directories whose torrents this run manages.
pub fn download_dirs() -> (r: Vec<String>)
    ensures
        r@.len() == 2,
        r@[0]@ == DOWNLOAD_DIR_1@,
        r@[1]@ == DOWNLOAD_DIR_2@,
{
    vec![DOWNLOAD_DIR_1.to_owned(), DOWNLOAD_DIR_2.to_owned()]
}

/// The roots of the media library.
pub fn media_dirs() -> (r: Vec<String>)
    ensures
        r@.len() == 3,
        r@[0]@ == MEDIA_DIR_1@,
        r@[1]@ == MEDIA_DIR_2@,
        r@[2]@ == MEDIA_DIR_3@,
{
    vec![MEDIA_DIR_1.to_owned(), MEDIA_DIR_2.to_owned(), MEDIA_DIR_3.to_owned()]
}

/// Accepts a configured directory. The caller has found that `dir` names an
/// existing directory (`is_dir`), and `dir` must be absolute: an invalid
/// configured directory ends the run before this is called.
pub fn path(dir: &str, is_dir: bool) -> (r: String)
    requires
        is_dir,
        is_absolute(dir@),
    ensures
        r@ == dir@,
{
    dir.to_owned()
}

/// The eligibility filter that the configuration describes.
pub fn eligibility_policy() -> (r: EligibilityPolicy)
    ensures
        r.download_roots@.len() == 2,
        r.download_roots@[0]@ == DOWNLOAD_DIR_1@,
        r.download_roots@[1]@ == DOWNLOAD_DIR_2@,
        r.min_seed_seconds == MIN_SEED_TIME,
{
    EligibilityPolicy { download_roots: download_dirs(), min_seed_seconds: MIN_SEED_TIME }
}

} // verus!
