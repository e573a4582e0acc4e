//! Destination mapping: where a repository lives under the output root, and
//! how the output directory itself is named for each sync source.

use vstd::prelude::*;
use vstd::string::*;
use crate::repo::Repo;
use crate::strutil::{concat_str, eq_ignore_ascii_case, eq_ignore_ascii_case_seq};

verus! {

/// Which dataset a run mirrors: the account's own repositories, its starred
/// ones, the repositories of accounts it follows or that follow it, or the
/// ones it watches.
#[derive(Clone, Copy, PartialEq, Eq, Structural, Debug)]
pub enum SyncSource {
    Own,
    Stars,
    Following,
    Followers,
    Watching,
}

/// The destination of a repository under `base`: `base/name` when its owner
/// is the root account itself (up to ASCII case), `base/owner/name`
/// otherwise, so that differently-owned repositories of one run cannot
/// collide.
pub open spec fn dest_path_spec(base: Seq<char>, repo: Repo, root: Seq<char>) -> Seq<char> {
    if eq_ignore_ascii_case_seq(repo.owner.login@, root) {
        base + "/"@ + repo.name@
    } else {
        base + "/"@ + repo.owner.login@ + "/"@ + repo.name@
    }
}

/// Builds the filesystem target path for a repository: directly under the
/// base directory when the repository belongs to the root account, nested
/// under its owner's name otherwise.
pub fn destination_path(base_dir: &str, repo: &Repo, root_username: &str) -> (p: String)
    ensures
        p@ == dest_path_spec(base_dir@, *repo, root_username@),
{
    if eq_ignore_ascii_case(repo.owner.login.as_str(), root_username) {
        let mut s = concat_str(base_dir, "/");
        s.append(repo.name.as_str());
        s
    } else {
        let mut s = concat_str(base_dir, "/");
        s.append(repo.owner.login.as_str());
        s.append("/");
        s.append(repo.name.as_str());
        s
    }
}

/// The name of the output directory for a source: the plain account name
/// for its own repositories, and a suffixed form for every other source, so
/// that differently-sourced mirrors do not collide on disk.
pub fn output_dir_name(username: &str, source: &SyncSource) -> (r: String)
    ensures
        match *source {
            SyncSource::Own => r@ == username@,
            SyncSource::Stars => r@ == username@ + "-stars"@,
            SyncSource::Following => r@ == username@ + "-following"@,
            SyncSource::Followers => r@ == username@ + "-followers"@,
            SyncSource::Watching => r@ == username@ + "-watching"@,
        },
{
    match source {
        SyncSource::Own => username.to_owned(),
        SyncSource::Stars => concat_str(username, "-stars"),
        SyncSource::Following => concat_str(username, "-following"),
        SyncSource::Followers => concat_str(username, "-followers"),
        SyncSource::Watching => concat_str(username, "-watching"),
    }
}

/// The destination paths of a whole run, one per repository, in order.
pub fn desired_paths(base_dir: &str, repos: &Vec<Repo>, root_username: &str) -> (v: Vec<String>)
    ensures
        v@.len() == repos@.len(),
        forall|i: int|
            0 <= i < repos@.len() ==> #[trigger] v@[i]@ == dest_path_spec(
                base_dir@,
                repos@[i],
                root_username@,
            ),
{
    let mut v: Vec<String> = Vec::new();
    let mut i: usize = 0;
    while i < repos.len()
        invariant
            i <= repos@.len(),
            v@.len() == i,
            forall|k: int|
                0 <= k < i ==> #[trigger] v@[k]@ == dest_path_spec(
                    base_dir@,
                    repos@[k],
                    root_username@,
                ),
        decreases repos@.len() - i,
    {
        let p = destination_path(base_dir, &repos[i], root_username);
        v.push(p);
        i = i + 1;
    }
    v
}

} // verus!
