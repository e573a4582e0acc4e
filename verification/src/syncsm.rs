//! The per-repository sync state machine.
//!
//! One invocation brings a single local path into agreement with a single
//! remote repository. The machine never touches the system itself: it tells
//! the caller which external command or filesystem action to run next
//! (`action_of`), and the caller feeds back what it observed (`step`). The
//! transition function is given in full as a specification (`step_spec`),
//! and the executable code is proved to follow it.
//!
//! Transitions mirror the sync policy: an absent path is cloned; a present
//! path without version-control metadata is removed and cloned; a valid
//! path is fast-updated, falling back to a re-clone when the tool reports
//! the default-branch-changed signature; under force, remotes are fetched
//! and the working copy is hard-reset to an upstream reference resolved by
//! an ordered fallback chain; a clone failure with a takedown marker is a
//! skip, not an error.

use vstd::prelude::*;
use vstd::string::*;
use crate::aggregate::string_views;
use crate::classify::{
    is_default_branch_error,
    is_default_branch_error_spec,
    is_dmca_error,
    is_dmca_error_spec,
};
use crate::strutil::{concat_str, first_nonblank_line, first_nonblank_line_spec};

verus! {

/// What the caller observed of one external command or filesystem action:
/// whether it succeeded, and the captured text (the trimmed standard output
/// for queries, the error text for failures).
#[derive(Debug)]
pub struct CmdOutcome {
    pub ok: bool,
    pub output: String,
}

/// Specification-level image of a command outcome.
pub struct CmdView {
    pub ok: bool,
    pub output: Seq<char>,
}

impl View for CmdOutcome {
    type V = CmdView;

    open spec fn view(&self) -> CmdView {
        CmdView { ok: self.ok, output: self.output@ }
    }
}

/// The state a destination path was found in at the start of a job.
#[derive(Clone, Copy, PartialEq, Eq, Structural, Debug)]
pub enum LocalState {
    /// The path does not exist.
    Absent,
    /// The path exists but has no version-control metadata directory.
    PresentInvalid,
    /// The path exists and has version-control metadata.
    PresentValid,
}

/// How one job ended.
#[derive(Debug)]
pub enum Outcome {
    /// The local path agrees with the remote repository.
    Synced,
    /// The remote content is taken down; the job is a skip, not an error.
    SkippedTakedown,
    /// The job failed; `message` carries the captured error text.
    Failed { message: String },
}

/// Specification-level image of an outcome.
pub enum OutcomeView {
    Synced,
    SkippedTakedown,
    Failed { message: Seq<char> },
}

impl View for Outcome {
    type V = OutcomeView;

    open spec fn view(&self) -> OutcomeView {
        match self {
            Outcome::Synced => OutcomeView::Synced,
            Outcome::SkippedTakedown => OutcomeView::SkippedTakedown,
            Outcome::Failed { message } => OutcomeView::Failed { message: message@ },
        }
    }
}

/// What the machine asks the caller to perform next. Queries must report
/// their trimmed standard output; every action reports success or failure
/// with captured error text.
#[derive(Debug)]
pub enum SyncAction {
    /// Clone the repository's URL to the destination path.
    CloneRepo,
    /// Remove the destination path and everything under it.
    RemovePath,
    /// Fast-update the working copy from its tracked remote branch.
    Pull,
    /// Fetch all remotes, pruning stale remote-branch references.
    FetchPrune,
    /// Query the recorded upstream-tracking reference of the current branch.
    QueryUpstream,
    /// Query the name of the current branch.
    QueryCurrentBranch,
    /// Check that the named reference exists.
    VerifyRef { refname: String },
    /// Query the remote's symbolic default-branch reference.
    QueryRemoteHead,
    /// Query the most recently committed remote branch of the primary remote.
    QueryNewestRemoteBranch,
    /// Check whether the repository has any commit.
    CheckHasCommits,
    /// Hard-reset the working copy to the named upstream reference.
    ResetHard { upstream: String },
}

/// Specification-level image of an action.
pub enum ActionView {
    CloneRepo,
    RemovePath,
    Pull,
    FetchPrune,
    QueryUpstream,
    QueryCurrentBranch,
    VerifyRef { refname: Seq<char> },
    QueryRemoteHead,
    QueryNewestRemoteBranch,
    CheckHasCommits,
    ResetHard { upstream: Seq<char> },
}

impl View for SyncAction {
    type V = ActionView;

    open spec fn view(&self) -> ActionView {
        match self {
            SyncAction::CloneRepo => ActionView::CloneRepo,
            SyncAction::RemovePath => ActionView::RemovePath,
            SyncAction::Pull => ActionView::Pull,
            SyncAction::FetchPrune => ActionView::FetchPrune,
            SyncAction::QueryUpstream => ActionView::QueryUpstream,
            SyncAction::QueryCurrentBranch => ActionView::QueryCurrentBranch,
            SyncAction::VerifyRef { refname } => ActionView::VerifyRef { refname: refname@ },
            SyncAction::QueryRemoteHead => ActionView::QueryRemoteHead,
            SyncAction::QueryNewestRemoteBranch => ActionView::QueryNewestRemoteBranch,
            SyncAction::CheckHasCommits => ActionView::CheckHasCommits,
            SyncAction::ResetHard { upstream } => ActionView::ResetHard { upstream: upstream@ },
        }
    }
}

/// A state of the machine. Non-terminal states each carry one pending
/// action; `Done` is absorbing.
#[derive(Debug)]
pub enum Step {
    /// The path exists without metadata: remove it, then clone.
    RemoveThenClone,
    /// A clone is running.
    Cloning,
    /// A clone failed: remove the partial path, then report. The removal's
    /// own outcome is ignored, as the failure is already classified.
    CleanupAfterClone { takedown: bool, message: String },
    /// A fast-update is running.
    Pulling,
    /// The default branch changed: remove the path, then re-clone.
    RemoveForReclone,
    /// A fetch of all remotes (with pruning) is running.
    Fetching,
    /// Upstream resolution: the recorded upstream-tracking reference.
    ResolveUpstream,
    /// Upstream resolution: the current branch's name.
    ResolveCurrentBranch,
    /// Upstream resolution: verify `origin/<branch>` exists.
    VerifyOriginBranch { candidate: String },
    /// Upstream resolution: the remote's symbolic default-branch reference.
    ResolveRemoteHead,
    /// Upstream resolution: the most recently committed remote branch.
    ResolveNewestBranch,
    /// Upstream resolution exhausted: check whether any commit exists.
    CheckCommits,
    /// A hard reset to the resolved upstream is running.
    Resetting { upstream: String },
    /// The job ended.
    Done { outcome: Outcome },
}

/// Specification-level image of a state.
pub enum StepView {
    RemoveThenClone,
    Cloning,
    CleanupAfterClone { takedown: bool, message: Seq<char> },
    Pulling,
    RemoveForReclone,
    Fetching,
    ResolveUpstream,
    ResolveCurrentBranch,
    VerifyOriginBranch { candidate: Seq<char> },
    ResolveRemoteHead,
    ResolveNewestBranch,
    CheckCommits,
    Resetting { upstream: Seq<char> },
    Done { outcome: OutcomeView },
}

impl View for Step {
    type V = StepView;

    open spec fn view(&self) -> StepView {
        match self {
            Step::RemoveThenClone => StepView::RemoveThenClone,
            Step::Cloning => StepView::Cloning,
            Step::CleanupAfterClone { takedown, message } => StepView::CleanupAfterClone {
                takedown: *takedown,
                message: message@,
            },
            Step::Pulling => StepView::Pulling,
            Step::RemoveForReclone => StepView::RemoveForReclone,
            Step::Fetching => StepView::Fetching,
            Step::ResolveUpstream => StepView::ResolveUpstream,
            Step::ResolveCurrentBranch => StepView::ResolveCurrentBranch,
            Step::VerifyOriginBranch { candidate } => StepView::VerifyOriginBranch {
                candidate: candidate@,
            },
            Step::ResolveRemoteHead => StepView::ResolveRemoteHead,
            Step::ResolveNewestBranch => StepView::ResolveNewestBranch,
            Step::CheckCommits => StepView::CheckCommits,
            Step::Resetting { upstream } => StepView::Resetting { upstream: upstream@ },
            Step::Done { outcome } => StepView::Done { outcome: outcome@ },
        }
    }
}

/// The fixed error text reported when no upstream can be resolved even
/// though the repository has commits.
pub open spec fn no_upstream_text() -> Seq<char> {
    "No upstream branch configured and no remote branches found"@
}

/// The first state of a job, from the observed local state and the force
/// flag: clone what is absent, remove-then-clone what is invalid, and for a
/// valid copy either fast-update or (under force) fetch and reset.
pub open spec fn start_spec(local: LocalState, force: bool) -> StepView {
    match local {
        LocalState::Absent => StepView::Cloning,
        LocalState::PresentInvalid => StepView::RemoveThenClone,
        LocalState::PresentValid => if force {
            StepView::Fetching
        } else {
            StepView::Pulling
        },
    }
}

/// The full transition function of the machine, over one observed command
/// outcome.
pub open spec fn step_spec(s: StepView, ev: CmdView) -> StepView {
    match s {
        StepView::RemoveThenClone => if ev.ok {
            StepView::Cloning
        } else {
            StepView::Done { outcome: OutcomeView::Failed { message: ev.output } }
        },
        StepView::Cloning => if ev.ok {
            StepView::Done { outcome: OutcomeView::Synced }
        } else {
            StepView::CleanupAfterClone {
                takedown: is_dmca_error_spec(ev.output),
                message: ev.output,
            }
        },
        StepView::CleanupAfterClone { takedown, message } => StepView::Done {
            outcome: if takedown {
                OutcomeView::SkippedTakedown
            } else {
                OutcomeView::Failed { message }
            },
        },
        StepView::Pulling => if ev.ok {
            StepView::Done { outcome: OutcomeView::Synced }
        } else if is_default_branch_error_spec(ev.output) {
            StepView::RemoveForReclone
        } else {
            StepView::Done { outcome: OutcomeView::Failed { message: ev.output } }
        },
        StepView::RemoveForReclone => if ev.ok {
            StepView::Cloning
        } else {
            StepView::Done { outcome: OutcomeView::Failed { message: ev.output } }
        },
        StepView::Fetching => if ev.ok {
            StepView::ResolveUpstream
        } else {
            StepView::Done { outcome: OutcomeView::Failed { message: ev.output } }
        },
        StepView::ResolveUpstream => if ev.ok {
            StepView::Resetting { upstream: ev.output }
        } else {
            StepView::ResolveCurrentBranch
        },
        StepView::ResolveCurrentBranch => if ev.ok && ev.output.len() > 0 {
            StepView::VerifyOriginBranch { candidate: "origin/"@ + ev.output }
        } else {
            StepView::ResolveRemoteHead
        },
        StepView::VerifyOriginBranch { candidate } => if ev.ok {
            StepView::Resetting { upstream: candidate }
        } else {
            StepView::ResolveRemoteHead
        },
        StepView::ResolveRemoteHead => if ev.ok && ev.output.len() > 0 {
            StepView::Resetting { upstream: ev.output }
        } else {
            StepView::ResolveNewestBranch
        },
        StepView::ResolveNewestBranch => if ev.ok {
            match first_nonblank_line_spec(ev.output) {
                Some(line) => StepView::Resetting { upstream: line },
                None => StepView::CheckCommits,
            }
        } else {
            StepView::CheckCommits
        },
        StepView::CheckCommits => if ev.ok {
            StepView::Done { outcome: OutcomeView::Failed { message: no_upstream_text() } }
        } else {
            StepView::Done { outcome: OutcomeView::Synced }
        },
        StepView::Resetting { upstream } => if ev.ok {
            StepView::Done { outcome: OutcomeView::Synced }
        } else {
            StepView::Done { outcome: OutcomeView::Failed { message: ev.output } }
        },
        StepView::Done { outcome } => StepView::Done { outcome },
    }
}

/// The pending action of a state; `None` exactly for terminal states.
pub open spec fn action_spec(s: StepView) -> Option<ActionView> {
    match s {
        StepView::RemoveThenClone => Some(ActionView::RemovePath),
        StepView::Cloning => Some(ActionView::CloneRepo),
        StepView::CleanupAfterClone { .. } => Some(ActionView::RemovePath),
        StepView::Pulling => Some(ActionView::Pull),
        StepView::RemoveForReclone => Some(ActionView::RemovePath),
        StepView::Fetching => Some(ActionView::FetchPrune),
        StepView::ResolveUpstream => Some(ActionView::QueryUpstream),
        StepView::ResolveCurrentBranch => Some(ActionView::QueryCurrentBranch),
        StepView::VerifyOriginBranch { candidate } => Some(
            ActionView::VerifyRef { refname: candidate },
        ),
        StepView::ResolveRemoteHead => Some(ActionView::QueryRemoteHead),
        StepView::ResolveNewestBranch => Some(ActionView::QueryNewestRemoteBranch),
        StepView::CheckCommits => Some(ActionView::CheckHasCommits),
        StepView::Resetting { upstream } => Some(ActionView::ResetHard { upstream }),
        StepView::Done { .. } => None,
    }
}

/// Whether an action discards or replaces local content. A fast-update is
/// not destructive: it fails rather than discard local changes; the queries
/// only read.
pub open spec fn destructive(a: ActionView) -> bool {
    match a {
        ActionView::CloneRepo => true,
        ActionView::RemovePath => true,
        ActionView::ResetHard { .. } => true,
        _ => false,
    }
}

/// The first state of a job.
pub fn start_step(local: LocalState, force: bool) -> (s: Step)
    ensures
        s@ == start_spec(local, force),
{
    match local {
        LocalState::Absent => Step::Cloning,
        LocalState::PresentInvalid => Step::RemoveThenClone,
        LocalState::PresentValid => if force {
            Step::Fetching
        } else {
            Step::Pulling
        },
    }
}

/// Classifies what the caller found on disk: the path's existence, and
/// whether a version-control metadata directory is present under it.
pub fn classify_local(path_exists: bool, has_vcs_dir: bool) -> (s: LocalState)
    ensures
        path_exists && has_vcs_dir ==> s == LocalState::PresentValid,
        path_exists && !has_vcs_dir ==> s == LocalState::PresentInvalid,
        !path_exists ==> s == LocalState::Absent,
{
    if path_exists {
        if has_vcs_dir {
            LocalState::PresentValid
        } else {
            LocalState::PresentInvalid
        }
    } else {
        LocalState::Absent
    }
}

/// Advances the machine by one observed command outcome.
pub fn step(s: Step, ev: CmdOutcome) -> (next: Step)
    ensures
        next@ == step_spec(s@, ev@),
{
    match s {
        Step::RemoveThenClone => if ev.ok {
            Step::Cloning
        } else {
            Step::Done { outcome: Outcome::Failed { message: ev.output } }
        },
        Step::Cloning => if ev.ok {
            Step::Done { outcome: Outcome::Synced }
        } else {
            let takedown = is_dmca_error(ev.output.as_str());
            Step::CleanupAfterClone { takedown, message: ev.output }
        },
        Step::CleanupAfterClone { takedown, message } => Step::Done {
            outcome: if takedown {
                Outcome::SkippedTakedown
            } else {
                Outcome::Failed { message }
            },
        },
        Step::Pulling => if ev.ok {
            Step::Done { outcome: Outcome::Synced }
        } else if is_default_branch_error(ev.output.as_str()) {
            Step::RemoveForReclone
        } else {
            Step::Done { outcome: Outcome::Failed { message: ev.output } }
        },
        Step::RemoveForReclone => if ev.ok {
            Step::Cloning
        } else {
            Step::Done { outcome: Outcome::Failed { message: ev.output } }
        },
        Step::Fetching => if ev.ok {
            Step::ResolveUpstream
        } else {
            Step::Done { outcome: Outcome::Failed { message: ev.output } }
        },
        Step::ResolveUpstream => if ev.ok {
            Step::Resetting { upstream: ev.output }
        } else {
            Step::ResolveCurrentBranch
        },
        Step::ResolveCurrentBranch => if ev.ok && ev.output.as_str().unicode_len() > 0 {
            let candidate = concat_str("origin/", ev.output.as_str());
            Step::VerifyOriginBranch { candidate }
        } else {
            Step::ResolveRemoteHead
        },
        Step::VerifyOriginBranch { candidate } => if ev.ok {
            Step::Resetting { upstream: candidate }
        } else {
            Step::ResolveRemoteHead
        },
        Step::ResolveRemoteHead => if ev.ok && ev.output.as_str().unicode_len() > 0 {
            Step::Resetting { upstream: ev.output }
        } else {
            Step::ResolveNewestBranch
        },
        Step::ResolveNewestBranch => if ev.ok {
            match first_nonblank_line(ev.output.as_str()) {
                Some(line) => Step::Resetting { upstream: line },
                None => Step::CheckCommits,
            }
        } else {
            Step::CheckCommits
        },
        Step::CheckCommits => if ev.ok {
            Step::Done {
                outcome: Outcome::Failed {
                    message: "No upstream branch configured and no remote branches found".to_owned(),
                },
            }
        } else {
            Step::Done { outcome: Outcome::Synced }
        },
        Step::Resetting { upstream: _ } => if ev.ok {
            Step::Done { outcome: Outcome::Synced }
        } else {
            Step::Done { outcome: Outcome::Failed { message: ev.output } }
        },
        Step::Done { outcome } => Step::Done { outcome },
    }
}

/// The pending action of a state: what the caller must run next, or `None`
/// when the job has ended.
pub fn action_of(s: &Step) -> (a: Option<SyncAction>)
    ensures
        match a {
            Some(act) => action_spec(s@) == Some(act@),
            None => action_spec(s@) == None::<ActionView>,
        },
{
    match s {
        Step::RemoveThenClone => Some(SyncAction::RemovePath),
        Step::Cloning => Some(SyncAction::CloneRepo),
        Step::CleanupAfterClone { .. } => Some(SyncAction::RemovePath),
        Step::Pulling => Some(SyncAction::Pull),
        Step::RemoveForReclone => Some(SyncAction::RemovePath),
        Step::Fetching => Some(SyncAction::FetchPrune),
        Step::ResolveUpstream => Some(SyncAction::QueryUpstream),
        Step::ResolveCurrentBranch => Some(SyncAction::QueryCurrentBranch),
        Step::VerifyOriginBranch { candidate } => Some(
            SyncAction::VerifyRef { refname: candidate.clone() },
        ),
        Step::ResolveRemoteHead => Some(SyncAction::QueryRemoteHead),
        Step::ResolveNewestBranch => Some(SyncAction::QueryNewestRemoteBranch),
        Step::CheckCommits => Some(SyncAction::CheckHasCommits),
        Step::Resetting { upstream } => Some(SyncAction::ResetHard { upstream: upstream.clone() }),
        Step::Done { .. } => None,
    }
}

/// On an unchanged, valid working copy without the force flag, a run of the
/// machine is a single fast-update and nothing else: the only action asked
/// for is the non-destructive `Pull`, and when it succeeds the job is done
/// and synced. Running the sync again therefore leaves the path as it was.
pub proof fn lemma_plain_update_is_noop(ev: CmdView)
    requires
        ev.ok,
    ensures
        start_spec(LocalState::PresentValid, false) == StepView::Pulling,
        action_spec(StepView::Pulling) == Some(ActionView::Pull),
        !destructive(ActionView::Pull),
        step_spec(StepView::Pulling, ev) == (StepView::Done { outcome: OutcomeView::Synced }),
{
}

/// A fast-update failure whose captured text carries both parts of the
/// default-branch-changed signature is recovered, not reported: the path is
/// removed, a clone follows, and when the clone succeeds the job is synced.
pub proof fn lemma_default_branch_recovery(pull_ev: CmdView, rm_ev: CmdView, clone_ev: CmdView)
    requires
        !pull_ev.ok,
        is_default_branch_error_spec(pull_ev.output),
        rm_ev.ok,
        clone_ev.ok,
    ensures
        step_spec(StepView::Pulling, pull_ev) == StepView::RemoveForReclone,
        action_spec(StepView::RemoveForReclone) == Some(ActionView::RemovePath),
        step_spec(StepView::RemoveForReclone, rm_ev) == StepView::Cloning,
        action_spec(StepView::Cloning) == Some(ActionView::CloneRepo),
        step_spec(StepView::Cloning, clone_ev) == (StepView::Done {
            outcome: OutcomeView::Synced,
        }),
{
}

/// A failed clone whose captured text carries a takedown marker is a skip:
/// the partial path is removed and the job reports success-with-skip,
/// whatever the removal itself reported.
pub proof fn lemma_takedown_is_skip(clone_ev: CmdView, rm_ev: CmdView)
    requires
        !clone_ev.ok,
        is_dmca_error_spec(clone_ev.output),
    ensures
        step_spec(StepView::Cloning, clone_ev) == (StepView::CleanupAfterClone {
            takedown: true,
            message: clone_ev.output,
        }),
        action_spec(
            StepView::CleanupAfterClone { takedown: true, message: clone_ev.output },
        ) == Some(ActionView::RemovePath),
        step_spec(
            StepView::CleanupAfterClone { takedown: true, message: clone_ev.output },
            rm_ev,
        ) == (StepView::Done { outcome: OutcomeView::SkippedTakedown }),
{
}

/// Force-updating a repository with no commits succeeds without a reset:
/// when every step of the upstream fallback chain comes back empty-handed
/// and the commit check finds none, the run ends synced, no state along the
/// way is a reset, and no destructive action is asked for after the fetch.
pub proof fn lemma_force_update_zero_commits(
    fetch_ev: CmdView,
    up_ev: CmdView,
    br_ev: CmdView,
    vr_ev: CmdView,
    head_ev: CmdView,
    newest_ev: CmdView,
    commits_ev: CmdView,
)
    requires
        fetch_ev.ok,
        !up_ev.ok,
        !vr_ev.ok,
        !head_ev.ok || head_ev.output.len() == 0,
        !newest_ev.ok || first_nonblank_line_spec(newest_ev.output) is None,
        !commits_ev.ok,
    ensures
        ({
            let s0 = start_spec(LocalState::PresentValid, true);
            let s1 = step_spec(s0, fetch_ev);
            let s2 = step_spec(s1, up_ev);
            let s3 = if br_ev.ok && br_ev.output.len() > 0 {
                step_spec(step_spec(s2, br_ev), vr_ev)
            } else {
                step_spec(s2, br_ev)
            };
            let s4 = step_spec(s3, head_ev);
            let s5 = step_spec(s4, newest_ev);
            let s6 = step_spec(s5, commits_ev);
            &&& s0 == StepView::Fetching
            &&& s1 == StepView::ResolveUpstream
            &&& s2 == StepView::ResolveCurrentBranch
            &&& s3 == StepView::ResolveRemoteHead
            &&& s4 == StepView::ResolveNewestBranch
            &&& s5 == StepView::CheckCommits
            &&& s6 == (StepView::Done { outcome: OutcomeView::Synced })
            &&& forall|s: StepView|
                #![auto]
                (s == s1 || s == s2 || s == s3 || s == s4 || s == s5) ==> !(s is Resetting)
                    && !destructive(action_spec(s)->Some_0)
        }),
{
}

/// The exact invocation of the version-control tool that an action stands
/// for: its argument list, and whether it runs inside the destination path.
/// `RemovePath` is a filesystem action, not an invocation.
pub open spec fn action_argv(a: ActionView, clone_url: Seq<char>, dest: Seq<char>) -> Option<
    (Seq<Seq<char>>, bool),
> {
    match a {
        ActionView::CloneRepo => Some((seq!["clone"@, clone_url, dest], false)),
        ActionView::RemovePath => None,
        ActionView::Pull => Some((seq!["pull"@], true)),
        ActionView::FetchPrune => Some((seq!["fetch"@, "--all"@, "--prune"@], true)),
        ActionView::QueryUpstream => Some(
            (seq!["rev-parse"@, "--abbrev-ref"@, "--symbolic-full-name"@, "@{u}"@], true),
        ),
        ActionView::QueryCurrentBranch => Some((seq!["branch"@, "--show-current"@], true)),
        ActionView::VerifyRef { refname } => Some((seq!["rev-parse"@, "--verify"@, refname], true)),
        ActionView::QueryRemoteHead => Some(
            (seq!["symbolic-ref"@, "--quiet"@, "--short"@, "refs/remotes/origin/HEAD"@], true),
        ),
        ActionView::QueryNewestRemoteBranch => Some(
            (
                seq![
                    "for-each-ref"@,
                    "--format=%(refname:short)"@,
                    "--sort=-committerdate"@,
                    "--count=1"@,
                    "refs/remotes/origin"@,
                ],
                true,
            ),
        ),
        ActionView::CheckHasCommits => Some((seq!["rev-parse"@, "--verify"@, "HEAD"@], true)),
        ActionView::ResetHard { upstream } => Some((seq!["reset"@, "--hard"@, upstream], true)),
    }
}

fn argv1(a: &str) -> (r: Vec<String>)
    ensures
        string_views(r@) == seq![a@],
{
    let mut v: Vec<String> = Vec::new();
    v.push(a.to_owned());
    proof {
        assert(string_views(v@) =~= seq![a@]);
    }
    v
}

fn argv2(a: &str, b: &str) -> (r: Vec<String>)
    ensures
        string_views(r@) == seq![a@, b@],
{
    let mut v: Vec<String> = Vec::new();
    v.push(a.to_owned());
    v.push(b.to_owned());
    proof {
        assert(string_views(v@) =~= seq![a@, b@]);
    }
    v
}

fn argv3(a: &str, b: &str, c: &str) -> (r: Vec<String>)
    ensures
        string_views(r@) == seq![a@, b@, c@],
{
    let mut v: Vec<String> = Vec::new();
    v.push(a.to_owned());
    v.push(b.to_owned());
    v.push(c.to_owned());
    proof {
        assert(string_views(v@) =~= seq![a@, b@, c@]);
    }
    v
}

fn argv4(a: &str, b: &str, c: &str, d: &str) -> (r: Vec<String>)
    ensures
        string_views(r@) == seq![a@, b@, c@, d@],
{
    let mut v: Vec<String> = Vec::new();
    v.push(a.to_owned());
    v.push(b.to_owned());
    v.push(c.to_owned());
    v.push(d.to_owned());
    proof {
        assert(string_views(v@) =~= seq![a@, b@, c@, d@]);
    }
    v
}

fn argv5(a: &str, b: &str, c: &str, d: &str, e: &str) -> (r: Vec<String>)
    ensures
        string_views(r@) == seq![a@, b@, c@, d@, e@],
{
    let mut v: Vec<String> = Vec::new();
    v.push(a.to_owned());
    v.push(b.to_owned());
    v.push(c.to_owned());
    v.push(d.to_owned());
    v.push(e.to_owned());
    proof {
        assert(string_views(v@) =~= seq![a@, b@, c@, d@, e@]);
    }
    v
}

/// Renders an action as the exact command to run: the tool's argument list
/// and whether it runs inside the destination path, or `None` for the
/// filesystem removal.
pub fn action_command(a: &SyncAction, clone_url: &str, dest: &str) -> (r: Option<
    (Vec<String>, bool),
>)
    ensures
        ({
            let m = action_argv(a@, clone_url@, dest@);
            match r {
                Some(p) => m == Some((string_views(p.0@), p.1)),
                None => m is None,
            }
        }),
{
    match a {
        SyncAction::CloneRepo => Some((argv3("clone", clone_url, dest), false)),
        SyncAction::RemovePath => None,
        SyncAction::Pull => Some((argv1("pull"), true)),
        SyncAction::FetchPrune => Some((argv3("fetch", "--all", "--prune"), true)),
        SyncAction::QueryUpstream => Some(
            (argv4("rev-parse", "--abbrev-ref", "--symbolic-full-name", "@{u}"), true),
        ),
        SyncAction::QueryCurrentBranch => Some((argv2("branch", "--show-current"), true)),
        SyncAction::VerifyRef { refname } => Some(
            (argv3("rev-parse", "--verify", refname.as_str()), true),
        ),
        SyncAction::QueryRemoteHead => Some(
            (argv4("symbolic-ref", "--quiet", "--short", "refs/remotes/origin/HEAD"), true),
        ),
        SyncAction::QueryNewestRemoteBranch => Some(
            (
                argv5(
                    "for-each-ref",
                    "--format=%(refname:short)",
                    "--sort=-committerdate",
                    "--count=1",
                    "refs/remotes/origin",
                ),
                true,
            ),
        ),
        SyncAction::CheckHasCommits => Some((argv3("rev-parse", "--verify", "HEAD"), true)),
        SyncAction::ResetHard { upstream } => Some(
            (argv3("reset", "--hard", upstream.as_str()), true),
        ),
    }
}

/// Whether a state is terminal.
pub fn is_done(s: &Step) -> (r: bool)
    ensures
        r == (s@ is Done),
{
    match s {
        Step::Done { .. } => true,
        _ => false,
    }
}

} // verus!
