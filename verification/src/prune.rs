//! Exact-mirror reconciliation: which on-disk repositories to delete so the
//! local tree matches the remote result, and which owner directories are
//! left empty by those deletions and go too.
//!
//! The caller scans the output directory once and hands in a snapshot: one
//! entry per immediate subdirectory, each flagged as a repository (it has
//! version-control metadata) or not, and for non-repository directories the
//! entries one level deeper (owner nesting puts repositories there). The
//! plan is computed from the snapshot and the desired path set alone.

use vstd::prelude::*;
use vstd::string::*;
use crate::strutil::concat_str;

verus! {

/// An entry one level under a non-repository directory.
pub struct ChildEntry {
    /// The entry's file name.
    pub name: String,
    /// Whether the entry is a directory.
    pub is_dir: bool,
    /// Whether the entry is a directory with version-control metadata.
    pub is_repo: bool,
}

/// An immediate subdirectory of the output root.
pub struct DirEntry {
    /// The directory's name.
    pub name: String,
    /// Whether the directory itself has version-control metadata.
    pub is_repo: bool,
    /// For a non-repository directory, everything directly inside it.
    pub children: Vec<ChildEntry>,
}

/// `base/dir`.
pub open spec fn top_path(base: Seq<char>, dir: Seq<char>) -> Seq<char> {
    base + "/"@ + dir
}

/// `base/dir/child`.
pub open spec fn child_path(base: Seq<char>, dir: Seq<char>, child: Seq<char>) -> Seq<char> {
    base + "/"@ + dir + "/"@ + child
}

/// Some desired path reads `p`.
pub open spec fn desired_contains(desired: Seq<String>, p: Seq<char>) -> bool {
    exists|i: int| 0 <= i < desired.len() && desired[i]@ == p
}

/// The repository paths one snapshot entry contributes: the directory
/// itself when it is a repository, else its repository children, in order.
pub open spec fn entry_repo_paths(base: Seq<char>, e: DirEntry) -> Seq<Seq<char>> {
    if e.is_repo {
        seq![top_path(base, e.name@)]
    } else {
        e.children@.filter(|c: ChildEntry| c.is_dir && c.is_repo).map_values(
            |c: ChildEntry| child_path(base, e.name@, c.name@),
        )
    }
}

/// Every repository path under the output root, in scan order: immediate
/// repository directories, and repository directories one level deeper
/// inside non-repository directories.
pub open spec fn existing_repo_paths_spec(base: Seq<char>, tree: Seq<DirEntry>) -> Seq<Seq<char>> {
    tree.map_values(|e: DirEntry| entry_repo_paths(base, e)).flatten()
}

/// A child that pruning deletes: a repository directory whose path is not
/// desired.
pub open spec fn child_pruned(
    base: Seq<char>,
    dir: Seq<char>,
    c: ChildEntry,
    desired: Seq<String>,
) -> bool {
    c.is_dir && c.is_repo && !desired_contains(desired, child_path(base, dir, c.name@))
}

/// A non-repository directory that pruning leaves empty (or that already
/// was): everything directly inside it is a pruned repository.
pub open spec fn dir_left_empty(base: Seq<char>, e: DirEntry, desired: Seq<String>) -> bool {
    &&& !e.is_repo
    &&& forall|j: int|
        0 <= j < e.children@.len() ==> child_pruned(base, e.name@, #[trigger] e.children@[j], desired)
}

fn top_path_exec(base: &str, dir: &String) -> (r: String)
    ensures
        r@ == top_path(base@, dir@),
{
    let mut s = concat_str(base, "/");
    s.append(dir.as_str());
    s
}

fn child_path_exec(base: &str, dir: &String, child: &String) -> (r: String)
    ensures
        r@ == child_path(base@, dir@, child@),
{
    let mut s = concat_str(base, "/");
    s.append(dir.as_str());
    s.append("/");
    s.append(child.as_str());
    s
}

fn desired_has(desired: &Vec<String>, p: &String) -> (r: bool)
    ensures
        r == desired_contains(desired@, p@),
{
    let mut i: usize = 0;
    while i < desired.len()
        invariant
            i <= desired@.len(),
            forall|k: int| 0 <= k < i ==> desired@[k]@ != p@,
        decreases desired@.len() - i,
    {
        if desired[i].eq(p) {
            return true;
        }
        i = i + 1;
    }
    false
}

/// Every repository path in the snapshot, in scan order.
pub fn existing_repo_paths(base: &str, tree: &Vec<DirEntry>) -> (r: Vec<String>)
    ensures
        r@.len() == existing_repo_paths_spec(base@, tree@).len(),
        forall|k: int|
            0 <= k < r@.len() ==> #[trigger] r@[k]@ == existing_repo_paths_spec(base@, tree@)[k],
{
    let mut r: Vec<String> = Vec::new();
    let mut i: usize = 0;
    proof {
        assert(tree@.take(0).map_values(|e: DirEntry| entry_repo_paths(base@, e))
            =~= Seq::<Seq<Seq<char>>>::empty());
    }
    while i < tree.len()
        invariant
            i <= tree@.len(),
            ({
                let part = tree@.take(i as int).map_values(
                    |e: DirEntry| entry_repo_paths(base@, e),
                ).flatten();
                &&& r@.len() == part.len()
                &&& forall|k: int| 0 <= k < r@.len() ==> #[trigger] r@[k]@ == part[k]
            }),
        decreases tree@.len() - i,
    {
        let ghost part_pre = tree@.take(i as int).map_values(
            |e: DirEntry| entry_repo_paths(base@, e),
        ).flatten();
        let e = &tree[i];
        let ghost contributed = entry_repo_paths(base@, tree@[i as int]);
        if e.is_repo {
            let p = top_path_exec(base, &e.name);
            r.push(p);
        } else {
            let mut j: usize = 0;
            let ghost cpred = |c: ChildEntry| c.is_dir && c.is_repo;
            let ghost cmap = |c: ChildEntry| child_path(base@, tree@[i as int].name@, c.name@);
            proof {
                assert(e.children@.take(0).filter(cpred).map_values(cmap)
                    =~= Seq::<Seq<char>>::empty());
            }
            while j < e.children.len()
                invariant
                    j <= e.children@.len(),
                    i < tree@.len(),
                    *e == tree@[i as int],
                    cpred == (|c: ChildEntry| c.is_dir && c.is_repo),
                    cmap == (|c: ChildEntry| child_path(base@, tree@[i as int].name@, c.name@)),
                    part_pre == tree@.take(i as int).map_values(
                        |x: DirEntry| entry_repo_paths(base@, x),
                    ).flatten(),
                    r@.len() == part_pre.len() + e.children@.take(j as int).filter(cpred).map_values(
                        cmap,
                    ).len(),
                    forall|k: int|
                        0 <= k < part_pre.len() ==> #[trigger] r@[k]@ == part_pre[k],
                    forall|k: int|
                        part_pre.len() <= k < r@.len() ==> #[trigger] r@[k]@ == e.children@.take(
                            j as int,
                        ).filter(cpred).map_values(cmap)[k - part_pre.len()],
                decreases e.children@.len() - j,
            {
                let c = &e.children[j];
                if c.is_dir && c.is_repo {
                    let p = child_path_exec(base, &e.name, &c.name);
                    r.push(p);
                }
                proof {
                    let ch = e.children@[j as int];
                    reveal(Seq::filter);
                    assert(e.children@.take(j + 1) =~= e.children@.take(j as int) + seq![ch]);
                    Seq::filter_distributes_over_add(e.children@.take(j as int), seq![ch], cpred);
                    assert(seq![ch].drop_last() =~= Seq::<ChildEntry>::empty());
                    assert(Seq::<ChildEntry>::empty().filter(cpred) =~= Seq::<ChildEntry>::empty());
                    if cpred(ch) {
                        assert(seq![ch].filter(cpred) =~= seq![ch]);
                        assert(e.children@.take(j + 1).filter(cpred) =~= e.children@.take(
                            j as int,
                        ).filter(cpred).push(ch));
                        assert(e.children@.take(j + 1).filter(cpred).map_values(cmap)
                            =~= e.children@.take(j as int).filter(cpred).map_values(cmap).push(
                            cmap(ch),
                        ));
                    } else {
                        assert(e.children@.take(j as int).filter(cpred) + seq![ch].filter(cpred)
                            =~= e.children@.take(j as int).filter(cpred));
                    }
                }
                j = j + 1;
            }
            proof {
                assert(e.children@.take(e.children@.len() as int) =~= e.children@);
            }
        }
        proof {
            let f = |x: DirEntry| entry_repo_paths(base@, x);
            assert(tree@.take(i + 1) =~= tree@.take(i as int).push(tree@[i as int]));
            assert(tree@.take(i + 1).map_values(f) =~= tree@.take(i as int).map_values(f).push(
                f(tree@[i as int]),
            ));
            tree@.take(i as int).map_values(f).lemma_flatten_push(f(tree@[i as int]));
            assert(tree@.take(i + 1).map_values(f).flatten() =~= part_pre + contributed);
        }
        i = i + 1;
    }
    proof {
        assert(tree@.take(tree@.len() as int) =~= tree@);
    }
    r
}

/// The on-disk repository paths that exact-mirror reconciliation deletes:
/// exactly those not in the desired set, in scan order.
pub fn prune_candidates(existing: &Vec<String>, desired: &Vec<String>) -> (r: Vec<String>)
    ensures
        ({
            let views = existing@.map_values(|s: String| s@);
            let gone = views.filter(|p: Seq<char>| !desired_contains(desired@, p));
            &&& r@.len() == gone.len()
            &&& forall|k: int| 0 <= k < r@.len() ==> #[trigger] r@[k]@ == gone[k]
        }),
{
    let ghost views: Seq<Seq<char>> = existing@.map_values(|s: String| s@);
    let ghost pred = |p: Seq<char>| !desired_contains(desired@, p);
    let mut r: Vec<String> = Vec::new();
    proof {
        assert(views.take(0).filter(pred) =~= Seq::<Seq<char>>::empty());
    }
    let mut i: usize = 0;
    while i < existing.len()
        invariant
            i <= existing@.len(),
            views == existing@.map_values(|s: String| s@),
            pred == (|p: Seq<char>| !desired_contains(desired@, p)),
            r@.len() == views.take(i as int).filter(pred).len(),
            forall|k: int|
                0 <= k < r@.len() ==> #[trigger] r@[k]@ == views.take(i as int).filter(pred)[k],
        decreases existing@.len() - i,
    {
        let keep = !desired_has(desired, &existing[i]);
        if keep {
            let p = existing[i].clone();
            r.push(p);
        }
        proof {
            let v = views[i as int];
            reveal(Seq::filter);
            assert(views.take(i + 1) =~= views.take(i as int) + seq![v]);
            Seq::filter_distributes_over_add(views.take(i as int), seq![v], pred);
            assert(seq![v].drop_last() =~= Seq::<Seq<char>>::empty());
            assert(Seq::<Seq<char>>::empty().filter(pred) =~= Seq::<Seq<char>>::empty());
            if pred(v) {
                assert(seq![v].filter(pred) =~= seq![v]);
                assert(views.take(i as int).filter(pred) + seq![v] =~= views.take(i as int).filter(
                    pred,
                ).push(v));
            } else {
                assert(views.take(i as int).filter(pred) + seq![v].filter(pred) =~= views.take(
                    i as int,
                ).filter(pred));
            }
        }
        i = i + 1;
    }
    proof {
        assert(views.take(views.len() as int) =~= views);
    }
    r
}

/// The non-repository directories that the deletions leave empty (or that
/// already were empty): they are removed after pruning, in scan order.
pub fn dirs_left_empty(base: &str, tree: &Vec<DirEntry>, desired: &Vec<String>) -> (r: Vec<String>)
    ensures
        ({
            let left = tree@.filter(|e: DirEntry| dir_left_empty(base@, e, desired@));
            &&& r@.len() == left.len()
            &&& forall|k: int| 0 <= k < r@.len() ==> #[trigger] r@[k]@ == top_path(base@, left[k].name@)
        }),
{
    let ghost pred = |e: DirEntry| dir_left_empty(base@, e, desired@);
    let mut r: Vec<String> = Vec::new();
    proof {
        assert(tree@.take(0).filter(pred) =~= Seq::<DirEntry>::empty());
    }
    let mut i: usize = 0;
    while i < tree.len()
        invariant
            i <= tree@.len(),
            pred == (|e: DirEntry| dir_left_empty(base@, e, desired@)),
            r@.len() == tree@.take(i as int).filter(pred).len(),
            forall|k: int|
                0 <= k < r@.len() ==> #[trigger] r@[k]@ == top_path(
                    base@,
                    tree@.take(i as int).filter(pred)[k].name@,
                ),
        decreases tree@.len() - i,
    {
        let e = &tree[i];
        let mut left = !e.is_repo;
        if left {
            let mut j: usize = 0;
            while j < e.children.len()
                invariant_except_break
                    left,
                    j <= e.children@.len(),
                    i < tree@.len(),
                    *e == tree@[i as int],
                    !tree@[i as int].is_repo,
                    forall|k: int|
                        0 <= k < j ==> child_pruned(
                            base@,
                            tree@[i as int].name@,
                            #[trigger] e.children@[k],
                            desired@,
                        ),
                ensures
                    left == dir_left_empty(base@, tree@[i as int], desired@),
                decreases e.children@.len() - j,
            {
                let c = &e.children[j];
                let mut this_pruned = false;
                if c.is_dir && c.is_repo {
                    let p = child_path_exec(base, &e.name, &c.name);
                    this_pruned = !desired_has(desired, &p);
                }
                if !this_pruned {
                    left = false;
                    proof {
                        assert(!child_pruned(
                            base@,
                            tree@[i as int].name@,
                            e.children@[j as int],
                            desired@,
                        ));
                    }
                    break ;
                }
                j = j + 1;
            }
        }
        if left {
            let p = top_path_exec(base, &e.name);
            r.push(p);
        }
        proof {
            let en = tree@[i as int];
            reveal(Seq::filter);
            assert(tree@.take(i + 1) =~= tree@.take(i as int) + seq![en]);
            Seq::filter_distributes_over_add(tree@.take(i as int), seq![en], pred);
            assert(seq![en].drop_last() =~= Seq::<DirEntry>::empty());
            assert(Seq::<DirEntry>::empty().filter(pred) =~= Seq::<DirEntry>::empty());
            if pred(en) {
                assert(seq![en].filter(pred) =~= seq![en]);
                assert(tree@.take(i as int).filter(pred) + seq![en] =~= tree@.take(i as int).filter(
                    pred,
                ).push(en));
            } else {
                assert(tree@.take(i as int).filter(pred) + seq![en].filter(pred) =~= tree@.take(
                    i as int,
                ).filter(pred));
            }
        }
        i = i + 1;
    }
    proof {
        assert(tree@.take(tree@.len() as int) =~= tree@);
    }
    r
}

/// Pruning is exact: a desired path is never deleted, and every on-disk
/// repository path outside the desired set is deleted.
pub proof fn lemma_mirror_pruning(existing: Seq<Seq<char>>, desired: Seq<String>, r: Seq<Seq<char>>)
    requires
        r == existing.filter(|p: Seq<char>| !desired_contains(desired, p)),
    ensures
        forall|k: int| 0 <= k < r.len() ==> !desired_contains(desired, #[trigger] r[k]),
        forall|j: int|
            0 <= j < existing.len() && !desired_contains(desired, #[trigger] existing[j])
                ==> r.contains(existing[j]),
{
    broadcast use vstd::seq_lib::group_filter_ensures;

    let pred = |p: Seq<char>| !desired_contains(desired, p);
    assert forall|k: int| 0 <= k < r.len() implies !desired_contains(desired, #[trigger] r[k]) by {
        assert(pred(existing.filter(pred)[k]));
    }
    assert forall|j: int|
        0 <= j < existing.len() && !desired_contains(desired, #[trigger] existing[j]) implies r.contains(
        existing[j],
    ) by {
        assert(pred(existing[j]));
        assert(existing.filter(pred).contains(existing[j]));
    }
}

} // verus!
