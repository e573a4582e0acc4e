//! Run coordination: source selection from mutually exclusive flags, fork
//! filtering, the bounded-concurrency job tracker, failure aggregation, and
//! the pruning plan for exact-mirror reconciliation.

use vstd::prelude::*;
use vstd::string::*;
use crate::paths::SyncSource;
use crate::repo::Repo;

verus! {

/// The run's settings, as plain values. The caller parses its command line
/// or environment into this; only the values matter here.
pub struct Cli {
    /// The account whose graph is queried.
    pub username: String,
    /// Sync the repositories the account has starred.
    pub stars: bool,
    /// Sync the repositories of the accounts this account follows.
    pub following: bool,
    /// Sync the repositories of this account's followers.
    pub followers: bool,
    /// Sync the repositories the account watches.
    pub watching: bool,
    /// Keep forked repositories in the sync set.
    pub include_forks: bool,
    /// Credential for authenticated requests, when given.
    pub token: Option<String>,
    /// Bound on simultaneously running jobs.
    pub concurrency: usize,
    /// Delete local repositories absent from the current remote result.
    pub exact_mirror: bool,
    /// Hard-reset existing working copies instead of fast-updating them.
    pub force: bool,
}

/// How many of the four source-selector flags are set.
pub open spec fn flags_set(stars: bool, following: bool, followers: bool, watching: bool) -> int {
    (if stars {
        1int
    } else {
        0int
    }) + (if following {
        1int
    } else {
        0int
    }) + (if followers {
        1int
    } else {
        0int
    }) + (if watching {
        1int
    } else {
        0int
    })
}

/// Resolves the dataset source from the four mutually exclusive selector
/// flags: none set means the account's own repositories; more than one set
/// is a configuration error and selects nothing.
pub fn select_source(stars: bool, following: bool, followers: bool, watching: bool) -> (r: Option<
    SyncSource,
>)
    ensures
        flags_set(stars, following, followers, watching) > 1 ==> r is None,
        flags_set(stars, following, followers, watching) <= 1 ==> (match r {
            Some(SyncSource::Own) => !stars && !following && !followers && !watching,
            Some(SyncSource::Stars) => stars,
            Some(SyncSource::Following) => following,
            Some(SyncSource::Followers) => followers,
            Some(SyncSource::Watching) => watching,
            None => false,
        }),
{
    let mut count: usize = 0;
    if stars {
        count = count + 1;
    }
    if following {
        count = count + 1;
    }
    if followers {
        count = count + 1;
    }
    if watching {
        count = count + 1;
    }
    if count > 1 {
        None
    } else if stars {
        Some(SyncSource::Stars)
    } else if following {
        Some(SyncSource::Following)
    } else if followers {
        Some(SyncSource::Followers)
    } else if watching {
        Some(SyncSource::Watching)
    } else {
        Some(SyncSource::Own)
    }
}

impl Cli {
    /// The dataset source this configuration selects, or `None` when the
    /// selector flags conflict.
    pub fn source(&self) -> (r: Option<SyncSource>)
        ensures
            flags_set(self.stars, self.following, self.followers, self.watching) > 1 ==> r is None,
            flags_set(self.stars, self.following, self.followers, self.watching) <= 1 ==> (
            match r {
                Some(SyncSource::Own) => !self.stars && !self.following && !self.followers
                    && !self.watching,
                Some(SyncSource::Stars) => self.stars,
                Some(SyncSource::Following) => self.following,
                Some(SyncSource::Followers) => self.followers,
                Some(SyncSource::Watching) => self.watching,
                None => false,
            }),
    {
        select_source(self.stars, self.following, self.followers, self.watching)
    }
}

/// A character that may stand in an authorization header value: visible
/// ASCII or horizontal tab.
pub open spec fn header_safe_char(c: char) -> bool {
    let u = c as u32;
    (32 <= u && u < 127) || u == 9
}

/// Whether every character of a credential may stand in an authorization
/// header value.
pub open spec fn header_safe(s: Seq<char>) -> bool {
    forall|i: int| 0 <= i < s.len() ==> header_safe_char(#[trigger] s[i])
}

/// Checks a credential before it is placed into an authorization header:
/// only visible ASCII and horizontal tabs are accepted. A token that fails
/// this check is a configuration error, found before any network call.
pub fn token_is_header_safe(token: &str) -> (r: bool)
    ensures
        r == header_safe(token@),
{
    let len = token.unicode_len();
    let mut i: usize = 0;
    while i < len
        invariant
            len == token@.len(),
            i <= len,
            forall|k: int| 0 <= k < i ==> header_safe_char(#[trigger] token@[k]),
        decreases len - i,
    {
        let c = token.get_char(i);
        let u = c as u32;
        if !(32 <= u && u < 127) && u != 9 {
            proof {
                vstd::utf8::char_u32_cast(c, u);
            }
            return false;
        }
        i = i + 1;
    }
    true
}

/// The sync set: every fetched repository when forks are included, and
/// exactly the non-fork ones otherwise, in fetched order.
pub fn filter_forks(repos: Vec<Repo>, include_forks: bool) -> (r: Vec<Repo>)
    ensures
        include_forks ==> r@ == repos@,
        !include_forks ==> r@ == repos@.filter(|x: Repo| !x.fork),
{
    if include_forks {
        return repos;
    }
    let mut repos = repos;
    let mut r: Vec<Repo> = Vec::new();
    let ghost all: Seq<Repo> = repos@;
    proof {
        assert(all.take(0).filter(|x: Repo| !x.fork) =~= Seq::<Repo>::empty());
    }
    let mut i: usize = 0;
    while i < repos.len()
        invariant
            i <= repos@.len(),
            repos@ == all,
            r@ == all.take(i as int).filter(|x: Repo| !x.fork),
        decreases repos@.len() - i,
    {
        let keep = !repos[i].fork;
        if keep {
            let x = repos[i].clone();
            r.push(x);
        }
        proof {
            let pred = |x: Repo| !x.fork;
            let e = all[i as int];
            reveal(Seq::filter);
            assert(all.take(i + 1) =~= all.take(i as int) + seq![e]);
            Seq::filter_distributes_over_add(all.take(i as int), seq![e], pred);
            assert(seq![e].drop_last() =~= Seq::<Repo>::empty());
            assert(Seq::<Repo>::empty().filter(pred) =~= Seq::<Repo>::empty());
            if pred(e) {
                assert(seq![e].filter(pred) =~= seq![e]);
                assert(all.take(i as int).filter(pred) + seq![e] =~= all.take(i as int).filter(
                    pred,
                ).push(e));
            } else {
                assert(all.take(i as int).filter(pred) + seq![e].filter(pred) =~= all.take(
                    i as int,
                ).filter(pred));
            }
        }
        i = i + 1;
    }
    proof {
        assert(all.take(all.len() as int) =~= all);
    }
    r
}

/// Forks are excluded unless asked for: without the include option no fork
/// is in the sync set and every non-fork is, in order; with it, the sync
/// set is the fetched set itself.
pub proof fn lemma_fork_filtering(repos: Seq<Repo>, r: Seq<Repo>, include_forks: bool)
    requires
        include_forks ==> r == repos,
        !include_forks ==> r == repos.filter(|x: Repo| !x.fork),
    ensures
        !include_forks ==> forall|k: int| 0 <= k < r.len() ==> !(#[trigger] r[k]).fork,
        !include_forks ==> forall|j: int|
            0 <= j < repos.len() && !(#[trigger] repos[j]).fork ==> r.contains(repos[j]),
        include_forks ==> r == repos,
{
    broadcast use vstd::seq_lib::group_filter_ensures;

    if !include_forks {
        let pred = |x: Repo| !x.fork;
        assert forall|j: int|
            0 <= j < repos.len() && !(#[trigger] repos[j]).fork implies r.contains(repos[j]) by {
            assert(pred(repos[j]));
            assert(repos.filter(pred).contains(repos[j]));
        }
        assert forall|k: int| 0 <= k < r.len() implies !(#[trigger] r[k]).fork by {
            assert(pred(repos.filter(pred)[k]));
        }
    }
}

/// One finished job: the repository's name and how it ended. `ok` is true
/// for a synced repository and for a takedown skip.
pub struct JobResult {
    /// The repository the job worked on.
    pub name: String,
    /// Whether the job ended without error.
    pub ok: bool,
    /// The failure message, for a failed job.
    pub message: String,
}

impl Clone for JobResult {
    fn clone(&self) -> (r: Self)
        ensures
            r == *self,
    {
        JobResult { name: self.name.clone(), ok: self.ok, message: self.message.clone() }
    }
}

/// Tracks a run's jobs under a concurrency bound: jobs are launched only
/// while fewer than `limit` are in flight, every completion is recorded,
/// and nothing stops the remaining jobs when one fails.
pub struct JobTracker {
    /// The configured concurrency bound.
    pub limit: usize,
    /// How many jobs the run has in total.
    pub total: usize,
    /// How many jobs have been launched so far.
    pub launched: usize,
    /// The recorded outcomes, one per completed job, in completion order.
    pub results: Vec<JobResult>,
}

impl JobTracker {
    /// How many jobs are running right now.
    pub open spec fn in_flight(&self) -> int {
        self.launched - self.results@.len()
    }

    /// The tracker's invariant: completions never outrun launches, launches
    /// never outrun the total, and the in-flight count never passes the
    /// bound.
    pub open spec fn wf(&self) -> bool {
        &&& self.results@.len() <= self.launched <= self.total
        &&& self.in_flight() <= self.limit
        &&& self.limit >= 1
    }

    /// A tracker for `total` jobs under the given bound.
    pub fn new(limit: usize, total: usize) -> (r: JobTracker)
        requires
            limit >= 1,
        ensures
            r.wf(),
            r.limit == limit,
            r.total == total,
            r.launched == 0,
            r.results@.len() == 0,
    {
        JobTracker { limit, total, launched: 0, results: Vec::new() }
    }

    /// Whether another job may start now: there is one left and the bound
    /// has room.
    pub fn can_launch(&self) -> (r: bool)
        requires
            self.wf(),
        ensures
            r == (self.launched < self.total && self.in_flight() < self.limit),
    {
        self.launched < self.total && self.launched - self.results.len() < self.limit
    }

    /// Records that one more job started.
    pub fn launch(&mut self)
        requires
            old(self).wf(),
            old(self).launched < old(self).total,
            old(self).in_flight() < old(self).limit,
        ensures
            final(self).wf(),
            final(self).launched == old(self).launched + 1,
            final(self).results == old(self).results,
            final(self).limit == old(self).limit,
            final(self).total == old(self).total,
            final(self).in_flight() == old(self).in_flight() + 1,
    {
        self.launched = self.launched + 1;
    }

    /// Records that one running job finished, with its outcome.
    pub fn complete(&mut self, result: JobResult)
        requires
            old(self).wf(),
            old(self).in_flight() > 0,
        ensures
            final(self).wf(),
            final(self).results@ == old(self).results@.push(result),
            final(self).launched == old(self).launched,
            final(self).limit == old(self).limit,
            final(self).total == old(self).total,
            final(self).in_flight() == old(self).in_flight() - 1,
    {
        self.results.push(result);
    }

    /// Whether every job has been launched and has completed.
    pub fn all_done(&self) -> (r: bool)
        requires
            self.wf(),
        ensures
            r == (self.launched == self.total && self.in_flight() == 0),
    {
        self.launched == self.total && self.results.len() == self.launched
    }

    /// The recorded outcomes, ending the run.
    pub fn into_results(self) -> (r: Vec<JobResult>)
        ensures
            r == self.results,
    {
        self.results
    }
}

/// The concurrency bound holds in every reachable tracker state: at no
/// point are more than `limit` jobs in flight, and neither launching (which
/// the tracker only allows below the bound) nor completing breaks that.
pub proof fn lemma_concurrency_bound(t: JobTracker)
    requires
        t.wf(),
    ensures
        t.in_flight() <= t.limit,
{
}

/// The names of the failed jobs, in completion order.
pub fn failed_names(results: &Vec<JobResult>) -> (r: Vec<String>)
    ensures
        r@.len() == results@.filter(|j: JobResult| !j.ok).len(),
        forall|k: int|
            0 <= k < r@.len() ==> #[trigger] r@[k]@ == results@.filter(|j: JobResult| !j.ok)[k].name@,
{
    let ghost all: Seq<JobResult> = results@;
    let ghost pred = |j: JobResult| !j.ok;
    let mut r: Vec<String> = Vec::new();
    proof {
        assert(all.take(0).filter(pred) =~= Seq::<JobResult>::empty());
    }
    let mut i: usize = 0;
    while i < results.len()
        invariant
            i <= all.len(),
            all == results@,
            pred == (|j: JobResult| !j.ok),
            r@.len() == all.take(i as int).filter(pred).len(),
            forall|k: int|
                0 <= k < r@.len() ==> #[trigger] r@[k]@ == all.take(i as int).filter(
                    pred,
                )[k].name@,
        decreases all.len() - i,
    {
        if !results[i].ok {
            let name = results[i].name.clone();
            r.push(name);
        }
        proof {
            let e = all[i as int];
            reveal(Seq::filter);
            assert(all.take(i + 1) =~= all.take(i as int) + seq![e]);
            Seq::filter_distributes_over_add(all.take(i as int), seq![e], pred);
            assert(seq![e].drop_last() =~= Seq::<JobResult>::empty());
            assert(Seq::<JobResult>::empty().filter(pred) =~= Seq::<JobResult>::empty());
            if pred(e) {
                assert(seq![e].filter(pred) =~= seq![e]);
                assert(all.take(i as int).filter(pred) + seq![e] =~= all.take(i as int).filter(
                    pred,
                ).push(e));
            } else {
                assert(all.take(i as int).filter(pred) + seq![e].filter(pred) =~= all.take(
                    i as int,
                ).filter(pred));
            }
        }
        i = i + 1;
    }
    proof {
        assert(all.take(all.len() as int) =~= all);
    }
    r
}

/// Whether the run succeeded: true exactly when no job failed.
pub fn run_succeeded(results: &Vec<JobResult>) -> (r: bool)
    ensures
        r == (forall|k: int| 0 <= k < results@.len() ==> (#[trigger] results@[k]).ok),
{
    let mut i: usize = 0;
    while i < results.len()
        invariant
            i <= results@.len(),
            forall|k: int| 0 <= k < i ==> (#[trigger] results@[k]).ok,
        decreases results@.len() - i,
    {
        if !results[i].ok {
            return false;
        }
        i = i + 1;
    }
    true
}

/// Failure aggregation is complete and honest: a run fails exactly when
/// some job failed; every failed job's name is reported; and a successful
/// job is never reported — even when another job failed, its result stands
/// recorded, since no failure stops the others.
pub proof fn lemma_aggregate_failures(results: Seq<JobResult>, j: int)
    requires
        0 <= j < results.len(),
    ensures
        !results[j].ok ==> results.filter(|x: JobResult| !x.ok).contains(results[j]),
        results[j].ok ==> !results.filter(|x: JobResult| !x.ok).contains(results[j]),
        !results[j].ok ==> !(forall|k: int| 0 <= k < results.len() ==> (#[trigger] results[k]).ok),
{
    broadcast use vstd::seq_lib::group_filter_ensures;

    let pred = |x: JobResult| !x.ok;
    if !results[j].ok {
        assert(pred(results[j]));
        assert(results.filter(pred).contains(results[j]));
    } else {
        if results.filter(pred).contains(results[j]) {
            let k = choose|k: int|
                0 <= k < results.filter(pred).len() && results.filter(pred)[k] == results[j];
            assert(pred(results.filter(pred)[k]));
        }
    }
}

} // verus!
