use replicant::aggregate::{merge_repo_lists, unique_accounts};
use replicant::paginate::{drain_pages, Paginator};
use replicant::repo::{Owner, Repo};

fn repo(owner: &str, name: &str, fork: bool) -> Repo {
    Repo {
        name: String::from(name),
        clone_url: format!("https://repos.example/{}/{}.git", owner, name),
        fork,
        full_name: format!("{}/{}", owner, name),
        owner: Owner { login: String::from(owner) },
    }
}

#[test]
fn pagination_collects_full_pages_then_stops() {
    // Three full pages of two items, then an empty page: six items
    // gathered, four requests issued.
    let pages: Vec<Vec<u64>> = vec![vec![1, 2], vec![3, 4], vec![5, 6], vec![]];
    let (items, requested) = drain_pages(pages);
    assert_eq!(items, vec![1, 2, 3, 4, 5, 6]);
    assert_eq!(requested, 4);
}

#[test]
fn pagination_stops_at_first_empty_page() {
    let pages: Vec<Vec<u64>> = vec![vec![7], vec![], vec![8]];
    let (items, requested) = drain_pages(pages);
    assert_eq!(items, vec![7]);
    assert_eq!(requested, 2);
}

#[test]
fn pagination_of_nothing_is_one_request() {
    let pages: Vec<Vec<u64>> = vec![];
    let (items, requested) = drain_pages(pages);
    assert!(items.is_empty());
    assert_eq!(requested, 1);
}

#[test]
fn paginator_steps_through_pages() {
    let mut pg: Paginator<u64> = Paginator::new();
    assert_eq!(pg.next_page, 1);
    assert!(!pg.is_done());
    pg.record_page(vec![10, 11]);
    assert_eq!(pg.next_page, 2);
    assert!(!pg.is_done());
    pg.record_page(vec![12]);
    assert_eq!(pg.next_page, 3);
    pg.record_page(vec![]);
    assert!(pg.is_done());
    assert_eq!(pg.pages_fetched, 3);
    assert_eq!(pg.into_items(), vec![10, 11, 12]);
}

#[test]
fn dedup_keeps_first_account_fetch() {
    // "shared/lib" appears in the first and the second account's list; the
    // first fetched copy (a fork) wins the tie.
    let first = vec![repo("shared", "lib", true), repo("ann", "app", false)];
    let second = vec![repo("shared", "lib", false), repo("bob", "tool", false)];
    let merged = merge_repo_lists(&vec![first, second]);
    let names: Vec<&str> = merged.iter().map(|r| r.full_name.as_str()).collect();
    assert_eq!(names, vec!["ann/app", "bob/tool", "shared/lib"]);
    let shared = merged.iter().find(|r| r.full_name == "shared/lib").unwrap();
    assert!(shared.fork, "the first fetched copy must win the tie");
}

#[test]
fn merge_sorts_by_full_name() {
    let lists = vec![
        vec![repo("zed", "z", false), repo("ann", "b", false)],
        vec![repo("ann", "a", false)],
    ];
    let merged = merge_repo_lists(&lists);
    let names: Vec<&str> = merged.iter().map(|r| r.full_name.as_str()).collect();
    assert_eq!(names, vec!["ann/a", "ann/b", "zed/z"]);
}

#[test]
fn merge_of_nothing_is_empty() {
    let merged = merge_repo_lists(&vec![]);
    assert!(merged.is_empty());
    let merged = merge_repo_lists(&vec![vec![], vec![]]);
    assert!(merged.is_empty());
}

#[test]
fn duplicate_accounts_are_fetched_once() {
    let accounts = vec![
        String::from("ann"),
        String::from("bob"),
        String::from("ann"),
        String::from("cid"),
        String::from("bob"),
    ];
    let unique = unique_accounts(&accounts);
    assert_eq!(unique, vec![String::from("ann"), String::from("bob"), String::from("cid")]);
}
