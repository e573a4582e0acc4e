use replicant::orchestrate::{
    failed_names, filter_forks, run_succeeded, select_source, token_is_header_safe, Cli,
    JobResult, JobTracker,
};
use replicant::paths::{destination_path, desired_paths, output_dir_name, SyncSource};
use replicant::prune::{
    dirs_left_empty, existing_repo_paths, prune_candidates, ChildEntry, DirEntry,
};
use replicant::repo::{Owner, Repo};

fn repo(owner: &str, name: &str, fork: bool) -> Repo {
    Repo {
        name: String::from(name),
        clone_url: format!("https://repos.example/{}/{}.git", owner, name),
        fork,
        full_name: format!("{}/{}", owner, name),
        owner: Owner { login: String::from(owner) },
    }
}

#[test]
fn source_selection_is_mutually_exclusive() {
    assert_eq!(select_source(false, false, false, false), Some(SyncSource::Own));
    assert_eq!(select_source(true, false, false, false), Some(SyncSource::Stars));
    assert_eq!(select_source(false, true, false, false), Some(SyncSource::Following));
    assert_eq!(select_source(false, false, true, false), Some(SyncSource::Followers));
    assert_eq!(select_source(false, false, false, true), Some(SyncSource::Watching));
    assert_eq!(select_source(true, true, false, false), None);
    assert_eq!(select_source(true, false, true, true), None);
}

#[test]
fn cli_source_uses_its_flags() {
    let cli = Cli {
        username: String::from("ann"),
        stars: true,
        following: false,
        followers: false,
        watching: false,
        include_forks: false,
        token: None,
        concurrency: 8,
        exact_mirror: false,
        force: false,
    };
    assert_eq!(cli.source(), Some(SyncSource::Stars));
}

#[test]
fn destination_mapping() {
    // Owner matching the root account, up to ASCII case: directly under the
    // base. Any other owner: nested under the owner's name.
    let own = repo("alice", "tool", false);
    assert_eq!(destination_path("output/Alice", &own, "Alice"), "output/Alice/tool");
    let other = repo("bob", "tool", false);
    assert_eq!(destination_path("output/alice", &other, "alice"), "output/alice/bob/tool");
}

#[test]
fn output_dir_names_by_source() {
    assert_eq!(output_dir_name("ann", &SyncSource::Own), "ann");
    assert_eq!(output_dir_name("ann", &SyncSource::Stars), "ann-stars");
    assert_eq!(output_dir_name("ann", &SyncSource::Following), "ann-following");
    assert_eq!(output_dir_name("ann", &SyncSource::Followers), "ann-followers");
    assert_eq!(output_dir_name("ann", &SyncSource::Watching), "ann-watching");
}

#[test]
fn desired_paths_follow_the_mapping() {
    let repos = vec![repo("ann", "a", false), repo("bob", "b", false)];
    let paths = desired_paths("output/ann", &repos, "ann");
    assert_eq!(paths, vec![String::from("output/ann/a"), String::from("output/ann/bob/b")]);
}

#[test]
fn forks_are_excluded_unless_asked_for() {
    let repos = vec![repo("a", "x", true), repo("b", "y", false), repo("c", "z", true)];
    let kept = filter_forks(repos, false);
    assert_eq!(kept.len(), 1);
    assert_eq!(kept[0].full_name, "b/y");
    let repos = vec![repo("a", "x", true), repo("b", "y", false)];
    let kept = filter_forks(repos, true);
    assert_eq!(kept.len(), 2);
}

#[test]
fn token_header_safety() {
    assert!(token_is_header_safe("ghp_abc123"));
    assert!(token_is_header_safe("with space and\ttab"));
    assert!(!token_is_header_safe("bad\nnewline"));
    assert!(!token_is_header_safe("café"));
    assert!(token_is_header_safe(""));
}

#[test]
fn tracker_never_exceeds_the_bound() {
    // Five jobs under a bound of two: a third launch is refused until a
    // completion makes room.
    let mut t = JobTracker::new(2, 5);
    assert!(t.can_launch());
    t.launch();
    assert!(t.can_launch());
    t.launch();
    assert!(!t.can_launch());
    t.complete(JobResult { name: String::from("a"), ok: true, message: String::new() });
    assert!(t.can_launch());
    t.launch();
    assert!(!t.can_launch());
    t.complete(JobResult { name: String::from("b"), ok: false, message: String::from("boom") });
    t.complete(JobResult { name: String::from("c"), ok: true, message: String::new() });
    assert!(t.can_launch());
    t.launch();
    t.launch();
    assert!(!t.can_launch());
    t.complete(JobResult { name: String::from("d"), ok: true, message: String::new() });
    t.complete(JobResult { name: String::from("e"), ok: true, message: String::new() });
    assert!(t.all_done());
    assert_eq!(t.into_results().len(), 5);
}

#[test]
fn aggregate_failure_reporting() {
    // Job x fails, job y still ran and is recorded; the run fails and names
    // exactly x.
    let results = vec![
        JobResult { name: String::from("x"), ok: false, message: String::from("boom") },
        JobResult { name: String::from("y"), ok: true, message: String::new() },
    ];
    assert!(!run_succeeded(&results));
    assert_eq!(failed_names(&results), vec![String::from("x")]);
    let all_ok = vec![JobResult { name: String::from("y"), ok: true, message: String::new() }];
    assert!(run_succeeded(&all_ok));
    assert!(failed_names(&all_ok).is_empty());
    let none: Vec<JobResult> = vec![];
    assert!(run_succeeded(&none));
}

fn repo_dir(name: &str) -> DirEntry {
    DirEntry { name: String::from(name), is_repo: true, children: vec![] }
}

fn owner_dir(name: &str, children: Vec<ChildEntry>) -> DirEntry {
    DirEntry { name: String::from(name), is_repo: false, children }
}

fn repo_child(name: &str) -> ChildEntry {
    ChildEntry { name: String::from(name), is_dir: true, is_repo: true }
}

#[test]
fn snapshot_scan_finds_direct_and_nested_repositories() {
    let tree = vec![
        repo_dir("a"),
        owner_dir(
            "bob",
            vec![
                repo_child("x"),
                ChildEntry { name: String::from("notes.txt"), is_dir: false, is_repo: false },
            ],
        ),
    ];
    let existing = existing_repo_paths("output/ann", &tree);
    assert_eq!(existing, vec![String::from("output/ann/a"), String::from("output/ann/bob/x")]);
}

#[test]
fn mirror_pruning_removes_exactly_the_extras() {
    // Desired {A, B}, on disk {A, B, C}: exactly C goes.
    let existing = vec![
        String::from("output/ann/a"),
        String::from("output/ann/b"),
        String::from("output/ann/c"),
    ];
    let desired = vec![String::from("output/ann/a"), String::from("output/ann/b")];
    let gone = prune_candidates(&existing, &desired);
    assert_eq!(gone, vec![String::from("output/ann/c")]);
}

#[test]
fn owner_directory_left_empty_is_removed() {
    // bob's only repository is pruned, so the owner directory goes too;
    // cid's repository stays desired, so cid's directory stays.
    let tree = vec![
        owner_dir("bob", vec![repo_child("x")]),
        owner_dir("cid", vec![repo_child("y")]),
    ];
    let desired = vec![String::from("output/ann/cid/y")];
    let empty = dirs_left_empty("output/ann", &tree, &desired);
    assert_eq!(empty, vec![String::from("output/ann/bob")]);
}

#[test]
fn directory_with_a_plain_file_is_not_removed() {
    let tree = vec![owner_dir(
        "bob",
        vec![
            repo_child("x"),
            ChildEntry { name: String::from("notes.txt"), is_dir: false, is_repo: false },
        ],
    )];
    let desired: Vec<String> = vec![];
    let empty = dirs_left_empty("output/ann", &tree, &desired);
    assert!(empty.is_empty());
}

#[test]
fn already_empty_directory_is_removed() {
    let tree = vec![owner_dir("old", vec![])];
    let desired: Vec<String> = vec![];
    let empty = dirs_left_empty("output/ann", &tree, &desired);
    assert_eq!(empty, vec![String::from("output/ann/old")]);
}
