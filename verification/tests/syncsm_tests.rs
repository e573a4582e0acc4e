use replicant::syncsm::{
    action_command, action_of, classify_local, is_done, start_step, step, CmdOutcome, LocalState,
    Outcome, Step, SyncAction,
};

fn ok() -> CmdOutcome {
    CmdOutcome { ok: true, output: String::new() }
}

fn ok_with(text: &str) -> CmdOutcome {
    CmdOutcome { ok: true, output: String::from(text) }
}

fn fail(text: &str) -> CmdOutcome {
    CmdOutcome { ok: false, output: String::from(text) }
}

#[test]
fn local_state_classification() {
    assert_eq!(classify_local(true, true), LocalState::PresentValid);
    assert_eq!(classify_local(true, false), LocalState::PresentInvalid);
    assert_eq!(classify_local(false, false), LocalState::Absent);
    assert_eq!(classify_local(false, true), LocalState::Absent);
}

#[test]
fn absent_path_is_cloned() {
    let s = start_step(LocalState::Absent, false);
    assert!(matches!(action_of(&s), Some(SyncAction::CloneRepo)));
    let s = step(s, ok());
    assert!(is_done(&s));
    assert!(matches!(s, Step::Done { outcome: Outcome::Synced }));
}

#[test]
fn invalid_path_is_removed_then_cloned() {
    let s = start_step(LocalState::PresentInvalid, false);
    assert!(matches!(action_of(&s), Some(SyncAction::RemovePath)));
    let s = step(s, ok());
    assert!(matches!(action_of(&s), Some(SyncAction::CloneRepo)));
    let s = step(s, ok());
    assert!(matches!(s, Step::Done { outcome: Outcome::Synced }));
}

#[test]
fn second_run_is_a_noop_fast_update() {
    // A valid, unchanged working copy without force: the machine asks for
    // one fast-update and finishes synced; nothing destructive is asked.
    let s = start_step(LocalState::PresentValid, false);
    assert!(matches!(action_of(&s), Some(SyncAction::Pull)));
    let s = step(s, ok());
    assert!(matches!(s, Step::Done { outcome: Outcome::Synced }));
}

#[test]
fn default_branch_change_triggers_reclone() {
    let text = "error: Your configuration specifies to merge with the ref 'refs/heads/master'\n\
                from the remote, but no such ref was fetched.";
    let s = start_step(LocalState::PresentValid, false);
    let s = step(s, fail(text));
    assert!(matches!(action_of(&s), Some(SyncAction::RemovePath)));
    let s = step(s, ok());
    assert!(matches!(action_of(&s), Some(SyncAction::CloneRepo)));
    let s = step(s, ok());
    assert!(matches!(s, Step::Done { outcome: Outcome::Synced }));
}

#[test]
fn other_pull_failures_are_reported() {
    let s = start_step(LocalState::PresentValid, false);
    let s = step(s, fail("fatal: could not read from remote"));
    match s {
        Step::Done { outcome: Outcome::Failed { message } } => {
            assert_eq!(message, "fatal: could not read from remote");
        }
        _ => panic!("expected a reported failure"),
    }
}

#[test]
fn takedown_clone_failure_is_a_skip() {
    let s = start_step(LocalState::Absent, false);
    let s = step(s, fail("remote: Repository unavailable due to DMCA takedown."));
    // The partial path is removed; the removal's own outcome is ignored.
    assert!(matches!(action_of(&s), Some(SyncAction::RemovePath)));
    let s = step(s, fail("could not remove"));
    assert!(matches!(s, Step::Done { outcome: Outcome::SkippedTakedown }));
}

#[test]
fn plain_clone_failure_is_reported_after_cleanup() {
    let s = start_step(LocalState::Absent, false);
    let s = step(s, fail("fatal: repository not found"));
    assert!(matches!(action_of(&s), Some(SyncAction::RemovePath)));
    let s = step(s, ok());
    match s {
        Step::Done { outcome: Outcome::Failed { message } } => {
            assert_eq!(message, "fatal: repository not found");
        }
        _ => panic!("expected a reported failure"),
    }
}

#[test]
fn force_update_resets_to_recorded_upstream() {
    let s = start_step(LocalState::PresentValid, true);
    assert!(matches!(action_of(&s), Some(SyncAction::FetchPrune)));
    let s = step(s, ok());
    assert!(matches!(action_of(&s), Some(SyncAction::QueryUpstream)));
    let s = step(s, ok_with("origin/main"));
    match &s {
        Step::Resetting { upstream } => assert_eq!(upstream, "origin/main"),
        _ => panic!("expected a reset"),
    }
    match action_of(&s) {
        Some(SyncAction::ResetHard { upstream }) => assert_eq!(upstream, "origin/main"),
        _ => panic!("expected a hard reset action"),
    }
    let s = step(s, ok());
    assert!(matches!(s, Step::Done { outcome: Outcome::Synced }));
}

#[test]
fn force_update_falls_back_to_origin_branch() {
    let s = start_step(LocalState::PresentValid, true);
    let s = step(s, ok());
    let s = step(s, fail("no upstream configured"));
    assert!(matches!(action_of(&s), Some(SyncAction::QueryCurrentBranch)));
    let s = step(s, ok_with("develop"));
    match action_of(&s) {
        Some(SyncAction::VerifyRef { refname }) => assert_eq!(refname, "origin/develop"),
        _ => panic!("expected a ref check"),
    }
    let s = step(s, ok());
    match action_of(&s) {
        Some(SyncAction::ResetHard { upstream }) => assert_eq!(upstream, "origin/develop"),
        _ => panic!("expected a hard reset action"),
    }
}

#[test]
fn force_update_falls_back_to_newest_remote_branch() {
    let s = start_step(LocalState::PresentValid, true);
    let s = step(s, ok());
    let s = step(s, fail(""));
    let s = step(s, ok_with("")); // no current branch name
    assert!(matches!(action_of(&s), Some(SyncAction::QueryRemoteHead)));
    let s = step(s, fail(""));
    assert!(matches!(action_of(&s), Some(SyncAction::QueryNewestRemoteBranch)));
    let s = step(s, ok_with(" origin/feature \n"));
    match action_of(&s) {
        Some(SyncAction::ResetHard { upstream }) => assert_eq!(upstream, "origin/feature"),
        _ => panic!("expected a hard reset action"),
    }
}

#[test]
fn force_update_on_zero_commit_repository_succeeds_without_reset() {
    // Every step of the fallback chain misses and the repository has no
    // commit: the job ends synced, and no reset was ever asked for.
    let s = start_step(LocalState::PresentValid, true);
    let s = step(s, ok()); // fetch
    let s = step(s, fail("")); // no recorded upstream
    let s = step(s, ok_with("main")); // a branch name exists...
    let s = step(s, fail("")); // ...but origin/main does not
    let s = step(s, fail("")); // no remote head
    let s = step(s, fail("")); // no remote branches
    assert!(matches!(action_of(&s), Some(SyncAction::CheckHasCommits)));
    let s = step(s, fail("")); // no commits
    assert!(matches!(s, Step::Done { outcome: Outcome::Synced }));
}

#[test]
fn force_update_with_commits_but_no_upstream_fails() {
    let s = start_step(LocalState::PresentValid, true);
    let s = step(s, ok());
    let s = step(s, fail(""));
    let s = step(s, ok_with(""));
    let s = step(s, fail(""));
    let s = step(s, fail(""));
    let s = step(s, ok()); // HEAD verifies: there are commits
    match s {
        Step::Done { outcome: Outcome::Failed { message } } => {
            assert_eq!(message, "No upstream branch configured and no remote branches found");
        }
        _ => panic!("expected a reported failure"),
    }
}

#[test]
fn fetch_failure_ends_the_job() {
    let s = start_step(LocalState::PresentValid, true);
    let s = step(s, fail("network unreachable"));
    match s {
        Step::Done { outcome: Outcome::Failed { message } } => {
            assert_eq!(message, "network unreachable");
        }
        _ => panic!("expected a reported failure"),
    }
}

#[test]
fn actions_render_as_exact_commands() {
    let url = "https://repos.example/ann/tool.git";
    let dest = "output/ann/tool";
    let (args, in_repo) = action_command(&SyncAction::CloneRepo, url, dest).unwrap();
    assert_eq!(args, vec!["clone".to_string(), url.to_string(), dest.to_string()]);
    assert!(!in_repo);

    assert!(action_command(&SyncAction::RemovePath, url, dest).is_none());

    let (args, in_repo) = action_command(&SyncAction::Pull, url, dest).unwrap();
    assert_eq!(args, vec!["pull".to_string()]);
    assert!(in_repo);

    let (args, _) = action_command(&SyncAction::FetchPrune, url, dest).unwrap();
    assert_eq!(args, vec!["fetch".to_string(), "--all".to_string(), "--prune".to_string()]);

    let (args, _) = action_command(
        &SyncAction::VerifyRef { refname: String::from("origin/main") },
        url,
        dest,
    )
    .unwrap();
    assert_eq!(
        args,
        vec!["rev-parse".to_string(), "--verify".to_string(), "origin/main".to_string()]
    );

    let (args, _) = action_command(
        &SyncAction::ResetHard { upstream: String::from("origin/main") },
        url,
        dest,
    )
    .unwrap();
    assert_eq!(
        args,
        vec!["reset".to_string(), "--hard".to_string(), "origin/main".to_string()]
    );

    let (args, _) = action_command(&SyncAction::CheckHasCommits, url, dest).unwrap();
    assert_eq!(
        args,
        vec!["rev-parse".to_string(), "--verify".to_string(), "HEAD".to_string()]
    );
}
