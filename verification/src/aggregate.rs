//! Aggregation of remote repository listings: account lists are fetched at
//! most once per account, per-account results are merged with the first
//! fetch winning ties on a repository's full name, and the merged result is
//! ordered lexicographically by full name for deterministic runs.

use vstd::prelude::*;
use crate::repo::Repo;
use crate::strutil::{
    lemma_lex_le_total,
    lemma_lex_le_trans,
    lex_le,
    str_le,
};

verus! {

/// Some string in `s` has view `v`.
pub open spec fn seq_contains_view(s: Seq<Seq<char>>, v: Seq<char>) -> bool {
    exists|i: int| 0 <= i < s.len() && s[i] == v
}

/// The views of a list of strings.
pub open spec fn string_views(s: Seq<String>) -> Seq<Seq<char>> {
    s.map_values(|x: String| x@)
}

/// The part of `dedup_views` still to come when the elements of `seen`
/// have already been kept.
pub open spec fn dedup_views_acc(s: Seq<Seq<char>>, seen: Seq<Seq<char>>) -> Seq<Seq<char>>
    decreases s.len(),
{
    if s.len() == 0 {
        Seq::empty()
    } else if seq_contains_view(seen, s[0]) {
        dedup_views_acc(s.skip(1), seen)
    } else {
        seq![s[0]] + dedup_views_acc(s.skip(1), seen.push(s[0]))
    }
}

/// The sequence with every repetition of an earlier element removed: each
/// distinct element keeps its first occurrence, in order.
pub open spec fn dedup_views(s: Seq<Seq<char>>) -> Seq<Seq<char>> {
    dedup_views_acc(s, Seq::empty())
}

fn vec_has_string(v: &Vec<String>, x: &String) -> (r: bool)
    ensures
        r == seq_contains_view(string_views(v@), x@),
{
    let mut i: usize = 0;
    while i < v.len()
        invariant
            i <= v@.len(),
            forall|k: int| 0 <= k < i ==> string_views(v@)[k] != x@,
        decreases v@.len() - i,
    {
        if v[i].eq(x) {
            assert(string_views(v@)[i as int] == x@);
            return true;
        }
        i = i + 1;
    }
    false
}

/// Keeps the first occurrence of each account name, in order, so that no
/// account is fetched twice.
pub fn unique_accounts(accounts: &Vec<String>) -> (r: Vec<String>)
    ensures
        string_views(r@) == dedup_views(string_views(accounts@)),
{
    let ghost all: Seq<Seq<char>> = string_views(accounts@);
    let mut r: Vec<String> = Vec::new();
    let mut i: usize = 0;
    proof {
        assert(all.skip(0) =~= all);
        assert(string_views(r@) =~= Seq::<Seq<char>>::empty());
    }
    while i < accounts.len()
        invariant
            i <= accounts@.len(),
            all == string_views(accounts@),
            dedup_views(all) == string_views(r@) + dedup_views_acc(
                all.skip(i as int),
                string_views(r@),
            ),
        decreases accounts@.len() - i,
    {
        let ghost pre: Seq<Seq<char>> = string_views(r@);
        let a = &accounts[i];
        proof {
            assert(all.skip(i as int)[0] == a@);
            assert(all.skip(i as int).skip(1) =~= all.skip(i + 1));
        }
        if !vec_has_string(&r, a) {
            r.push(a.clone());
            proof {
                assert(string_views(r@) =~= pre.push(a@));
                assert(pre + (seq![a@] + dedup_views_acc(all.skip(i + 1), pre.push(a@)))
                    =~= pre.push(a@) + dedup_views_acc(all.skip(i + 1), pre.push(a@)));
            }
        }
        i = i + 1;
    }
    proof {
        assert(all.skip(i as int).len() == 0);
        assert(string_views(r@) + Seq::<Seq<char>>::empty() =~= string_views(r@));
    }
    r
}

/// Some repository in `s` has full name `n`.
pub open spec fn has_name(s: Seq<Repo>, n: Seq<char>) -> bool {
    exists|i: int| 0 <= i < s.len() && s[i].full_name@ == n
}

/// The first repository in `s` whose full name is `n`.
pub open spec fn first_with_name(s: Seq<Repo>, n: Seq<char>) -> Repo
    recommends
        has_name(s, n),
    decreases s.len(),
{
    if s.len() == 0 {
        arbitrary()
    } else if s[0].full_name@ == n {
        s[0]
    } else {
        first_with_name(s.skip(1), n)
    }
}

/// All fetched repositories in fetch order: the concatenation of the
/// per-account lists.
pub open spec fn flat_of(lists: Seq<Vec<Repo>>) -> Seq<Repo> {
    lists.map_values(|l: Vec<Repo>| l@).flatten()
}

/// One repository comes no later than another in the order by full name.
pub open spec fn repo_le(a: Repo, b: Repo) -> bool {
    lex_le(a.full_name@, b.full_name@)
}

/// The sequence is sorted by full name.
pub open spec fn sorted_by_name(s: Seq<Repo>) -> bool {
    forall|p: int, q: int| 0 <= p < q < s.len() ==> #[trigger] repo_le(s[p], s[q])
}

proof fn lemma_has_name_push(s: Seq<Repo>, x: Repo, n: Seq<char>)
    ensures
        has_name(s.push(x), n) <==> (has_name(s, n) || x.full_name@ == n),
{
    if has_name(s, n) {
        let i = choose|i: int| 0 <= i < s.len() && s[i].full_name@ == n;
        assert(s.push(x)[i].full_name@ == n);
    }
    if x.full_name@ == n {
        assert(s.push(x)[s.len() as int].full_name@ == n);
    }
    if has_name(s.push(x), n) {
        let i = choose|i: int| 0 <= i < s.push(x).len() && s.push(x)[i].full_name@ == n;
        if i < s.len() {
            assert(s[i].full_name@ == n);
        } else {
            assert(s.push(x)[i] == x);
        }
    }
}

proof fn lemma_first_with_name_push(s: Seq<Repo>, x: Repo, n: Seq<char>)
    ensures
        has_name(s, n) ==> first_with_name(s.push(x), n) == first_with_name(s, n),
        !has_name(s, n) && x.full_name@ == n ==> first_with_name(s.push(x), n) == x,
    decreases s.len(),
{
    lemma_has_name_push(s, x, n);
    if s.len() == 0 {
        assert(s.push(x)[0] == x);
        assert(s.push(x).len() == 1);
    } else {
        lemma_first_with_name_push(s.skip(1), x, n);
        assert(s.push(x).skip(1) =~= s.skip(1).push(x));
        assert(s.push(x)[0] == s[0]);
        if s[0].full_name@ == n {
        } else {
            if has_name(s, n) {
                let i = choose|i: int| 0 <= i < s.len() && s[i].full_name@ == n;
                assert(s.skip(1)[i - 1].full_name@ == n);
                assert(has_name(s.skip(1), n));
            } else {
                if has_name(s.skip(1), n) {
                    let i = choose|i: int| 0 <= i < s.skip(1).len() && s.skip(1)[i].full_name@
                        == n;
                    assert(s[i + 1].full_name@ == n);
                }
            }
        }
    }
}

fn vec_has_name(v: &Vec<Repo>, name: &String) -> (r: bool)
    ensures
        r == has_name(v@, name@),
{
    let mut i: usize = 0;
    while i < v.len()
        invariant
            i <= v@.len(),
            forall|k: int| 0 <= k < i ==> v@[k].full_name@ != name@,
        decreases v@.len() - i,
    {
        if v[i].full_name.eq(name) {
            return true;
        }
        i = i + 1;
    }
    false
}

/// Merges per-account repository lists into one run list: the first fetched
/// entry wins ties on a full name (full names are unique per account graph,
/// so ties only arise when account graphs overlap), every fetched full name
/// is represented, and the result is ordered by full name, with no name
/// repeated.
pub fn merge_repo_lists(lists: &Vec<Vec<Repo>>) -> (r: Vec<Repo>)
    ensures
        ({
            let flat = flat_of(lists@);
            &&& sorted_by_name(r@)
            &&& forall|p: int, q: int|
                0 <= p < q < r@.len() ==> r@[p].full_name@ != r@[q].full_name@
            &&& forall|k: int|
                0 <= k < r@.len() ==> has_name(flat, #[trigger] r@[k].full_name@) && r@[k]
                    == first_with_name(flat, r@[k].full_name@)
            &&& forall|j: int| 0 <= j < flat.len() ==> has_name(r@, #[trigger] flat[j].full_name@)
        }),
{
    let ghost flat: Seq<Repo> = flat_of(lists@);
    // Flatten the fetched lists in fetch order.
    let mut flatv: Vec<Repo> = Vec::new();
    let mut i: usize = 0;
    proof {
        assert(lists@.take(0) =~= Seq::<Vec<Repo>>::empty());
        assert(flat_of(lists@.take(0)) =~= Seq::<Repo>::empty());
    }
    while i < lists.len()
        invariant
            i <= lists@.len(),
            flatv@ == flat_of(lists@.take(i as int)),
        decreases lists@.len() - i,
    {
        let ghost fpre: Seq<Repo> = flatv@;
        let mut j: usize = 0;
        while j < lists[i].len()
            invariant
                i < lists@.len(),
                j <= lists@[i as int]@.len(),
                flatv@ == fpre + lists@[i as int]@.take(j as int),
            decreases lists@[i as int]@.len() - j,
        {
            let x = lists[i][j].clone();
            flatv.push(x);
            proof {
                assert(lists@[i as int]@.take(j + 1) =~= lists@[i as int]@.take(j as int).push(
                    lists@[i as int]@[j as int],
                ));
                assert(fpre + lists@[i as int]@.take(j as int).push(lists@[i as int]@[j as int])
                    =~= (fpre + lists@[i as int]@.take(j as int)).push(lists@[i as int]@[j as int]));
            }
            j = j + 1;
        }
        proof {
            assert(lists@[i as int]@.take(lists@[i as int]@.len() as int) =~= lists@[i as int]@);
            assert(lists@.take(i + 1) =~= lists@.take(i as int).push(lists@[i as int]));
            lists@.take(i as int).map_values(|l: Vec<Repo>| l@).lemma_flatten_push(
                lists@[i as int]@,
            );
            assert(lists@.take(i + 1).map_values(|l: Vec<Repo>| l@) =~= lists@.take(
                i as int,
            ).map_values(|l: Vec<Repo>| l@).push(lists@[i as int]@));
        }
        i = i + 1;
    }
    proof {
        assert(lists@.take(lists@.len() as int) =~= lists@);
    }
    // Keep the first occurrence of each full name.
    let mut acc: Vec<Repo> = Vec::new();
    let mut k: usize = 0;
    proof {
        assert(flat.take(0) =~= Seq::<Repo>::empty());
    }
    while k < flatv.len()
        invariant
            k <= flat.len(),
            flatv@ == flat,
            forall|p: int, q: int|
                0 <= p < q < acc@.len() ==> acc@[p].full_name@ != acc@[q].full_name@,
            forall|t: int|
                0 <= t < acc@.len() ==> has_name(flat.take(k as int), #[trigger] acc@[t].full_name@)
                    && acc@[t] == first_with_name(flat.take(k as int), acc@[t].full_name@),
            forall|j: int|
                0 <= j < k ==> has_name(acc@, #[trigger] flat.take(k as int)[j].full_name@),
        decreases flat.len() - k,
    {
        let ghost apre: Seq<Repo> = acc@;
        let x = flatv[k].clone();
        let present = vec_has_name(&acc, &x.full_name);
        proof {
            assert(flat.take(k + 1) =~= flat.take(k as int).push(flat[k as int]));
            assert(x == flat[k as int]);
        }
        if !present {
            acc.push(x);
        }
        proof {
            let fk = flat.take(k as int);
            let xr = flat[k as int];
            lemma_has_name_push(fk, xr, xr.full_name@);
            lemma_first_with_name_push(fk, xr, xr.full_name@);
            if !present {
                // The new entry's name is not in the prefix: otherwise the
                // completeness invariant would have put it into `acc`.
                if has_name(fk, xr.full_name@) {
                    let j = choose|j: int| 0 <= j < fk.len() && fk[j].full_name@ == xr.full_name@;
                    assert(has_name(apre, flat.take(k as int)[j].full_name@));
                    assert(false);
                }
                assert(acc@ == apre.push(xr));
                assert forall|t: int| 0 <= t < acc@.len() implies has_name(
                    flat.take(k + 1),
                    #[trigger] acc@[t].full_name@,
                ) && acc@[t] == first_with_name(flat.take(k + 1), acc@[t].full_name@) by {
                    lemma_has_name_push(fk, xr, acc@[t].full_name@);
                    lemma_first_with_name_push(fk, xr, acc@[t].full_name@);
                    if t < apre.len() {
                        assert(acc@[t] == apre[t]);
                    } else {
                        assert(acc@[t] == xr);
                    }
                }
                assert forall|j: int| 0 <= j < k + 1 implies has_name(
                    acc@,
                    #[trigger] flat.take(k + 1)[j].full_name@,
                ) by {
                    if j < k {
                        assert(flat.take(k + 1)[j] == flat.take(k as int)[j]);
                        let t = choose|t: int|
                            0 <= t < apre.len() && apre[t].full_name@ == flat.take(
                                k as int,
                            )[j].full_name@;
                        assert(acc@[t] == apre[t]);
                        assert(has_name(acc@, flat.take(k + 1)[j].full_name@));
                    } else {
                        assert(acc@[apre.len() as int] == xr);
                        assert(has_name(acc@, xr.full_name@));
                    }
                }
            } else {
                assert forall|t: int| 0 <= t < acc@.len() implies has_name(
                    flat.take(k + 1),
                    #[trigger] acc@[t].full_name@,
                ) && acc@[t] == first_with_name(flat.take(k + 1), acc@[t].full_name@) by {
                    lemma_has_name_push(fk, xr, acc@[t].full_name@);
                    lemma_first_with_name_push(fk, xr, acc@[t].full_name@);
                }
                assert forall|j: int| 0 <= j < k + 1 implies has_name(
                    acc@,
                    #[trigger] flat.take(k + 1)[j].full_name@,
                ) by {
                    if j < k {
                        assert(flat.take(k + 1)[j] == flat.take(k as int)[j]);
                    } else {
                        assert(flat.take(k + 1)[j] == xr);
                        assert(has_name(acc@, xr.full_name@));
                    }
                }
            }
        }
        k = k + 1;
    }
    proof {
        assert(flat.take(flat.len() as int) =~= flat);
    }
    // Order by full name.
    let mut out: Vec<Repo> = Vec::new();
    let mut m: usize = 0;
    while m < acc.len()
        invariant
            m <= acc@.len(),
            forall|p: int, q: int|
                0 <= p < q < acc@.len() ==> acc@[p].full_name@ != acc@[q].full_name@,
            forall|t: int|
                0 <= t < acc@.len() ==> has_name(flat, #[trigger] acc@[t].full_name@) && acc@[t]
                    == first_with_name(flat, acc@[t].full_name@),
            sorted_by_name(out@),
            forall|p: int, q: int|
                0 <= p < q < out@.len() ==> out@[p].full_name@ != out@[q].full_name@,
            forall|t: int|
                0 <= t < out@.len() ==> exists|u: int|
                    0 <= u < m && acc@[u] == #[trigger] out@[t],
            forall|u: int| 0 <= u < m ==> has_name(out@, #[trigger] acc@[u].full_name@),
        decreases acc@.len() - m,
    {
        let ghost opre: Seq<Repo> = out@;
        let x = acc[m].clone();
        let mut pos: usize = 0;
        while pos < out.len() && str_le(out[pos].full_name.as_str(), x.full_name.as_str())
            invariant
                pos <= out@.len(),
                x == acc@[m as int],
                forall|t: int| 0 <= t < pos ==> repo_le(#[trigger] out@[t], x),
            decreases out@.len() - pos,
        {
            pos = pos + 1;
        }
        proof {
            if pos < out@.len() {
                lemma_lex_le_total(out@[pos as int].full_name@, x.full_name@);
                assert(repo_le(x, out@[pos as int]));
            }
            assert forall|t: int| pos <= t < out@.len() implies repo_le(x, #[trigger] out@[t]) by {
                if t > pos {
                    assert(repo_le(out@[pos as int], out@[t]));
                    lemma_lex_le_trans(
                        x.full_name@,
                        out@[pos as int].full_name@,
                        out@[t].full_name@,
                    );
                }
            }
        }
        out.insert(pos, x);
        proof {
            opre.insert_ensures(pos as int, x);
            let now = out@;
            assert(now == opre.insert(pos as int, x));
            // Order, distinctness, membership and coverage survive the insert.
            assert forall|p: int, q: int| 0 <= p < q < now.len() implies repo_le(
                #[trigger] now[p],
                #[trigger] now[q],
            ) && now[p].full_name@ != now[q].full_name@ by {
                let pp: int = if p < pos { p } else { p - 1 };
                let qq: int = if q < pos { q } else { q - 1 };
                if p == pos {
                    assert(now[p] == x);
                    assert(now[q] == opre[qq]);
                } else if q == pos {
                    assert(now[q] == x);
                    assert(now[p] == opre[pp]);
                } else {
                    assert(now[p] == opre[pp]);
                    assert(now[q] == opre[qq]);
                }
                // Distinct names: both elements are entries of `acc`, at
                // distinct positions, and `acc` has no repeated name.
                let eu = choose|u: int| 0 <= u < m + 1 && acc@[u] == now[p];
                let ev = choose|u: int| 0 <= u < m + 1 && acc@[u] == now[q];
                assert(exists|u: int| 0 <= u < m + 1 && acc@[u] == now[p]) by {
                    if p == pos {
                        assert(acc@[m as int] == now[p]);
                    } else {
                        let w = choose|u: int| 0 <= u < m && acc@[u] == opre[pp];
                        assert(acc@[w] == now[p]);
                    }
                }
                assert(exists|u: int| 0 <= u < m + 1 && acc@[u] == now[q]) by {
                    if q == pos {
                        assert(acc@[m as int] == now[q]);
                    } else {
                        let w = choose|u: int| 0 <= u < m && acc@[u] == opre[qq];
                        assert(acc@[w] == now[q]);
                    }
                }
            }
            assert forall|t: int| 0 <= t < now.len() implies exists|u: int|
                0 <= u < m + 1 && acc@[u] == #[trigger] now[t] by {
                if t == pos {
                    assert(acc@[m as int] == now[t]);
                } else {
                    let tt: int = if t < pos { t } else { t - 1 };
                    assert(now[t] == opre[tt]);
                    let w = choose|u: int| 0 <= u < m && acc@[u] == opre[tt];
                    assert(acc@[w] == now[t]);
                }
            }
            assert forall|u: int| 0 <= u < m + 1 implies has_name(
                now,
                #[trigger] acc@[u].full_name@,
            ) by {
                if u < m {
                    let t = choose|t: int|
                        0 <= t < opre.len() && opre[t].full_name@ == acc@[u].full_name@;
                    let nt: int = if t < pos { t } else { t + 1 };
                    assert(now[nt] == opre[t]);
                } else {
                    assert(now[pos as int] == x);
                }
            }
        }
        m = m + 1;
    }
    proof {
        // Every fetched name is represented: its first occurrence was kept
        // in `acc`, and ordering kept every `acc` entry.
        assert forall|j: int| 0 <= j < flat.len() implies has_name(
            out@,
            #[trigger] flat[j].full_name@,
        ) by {
            assert(has_name(acc@, flat[j].full_name@));
            let t = choose|t: int|
                0 <= t < acc@.len() && acc@[t].full_name@ == flat[j].full_name@;
            assert(has_name(out@, acc@[t].full_name@));
        }
        assert forall|t: int| 0 <= t < out@.len() implies has_name(
            flat,
            #[trigger] out@[t].full_name@,
        ) && out@[t] == first_with_name(flat, out@[t].full_name@) by {
            let u = choose|u: int| 0 <= u < acc@.len() && acc@[u] == out@[t];
        }
    }
    out
}

/// Deduplication is exact: when any fetched list carries a full name, the
/// merged run list carries exactly one entry under that name, and it is the
/// first fetched one — the earlier account in fetch order wins a tie.
pub proof fn lemma_dedup_single_entry(r: Seq<Repo>, flat: Seq<Repo>, n: Seq<char>)
    requires
        forall|p: int, q: int| 0 <= p < q < r.len() ==> r[p].full_name@ != r[q].full_name@,
        forall|k: int|
            0 <= k < r.len() ==> has_name(flat, #[trigger] r[k].full_name@) && r[k]
                == first_with_name(flat, r[k].full_name@),
        forall|j: int| 0 <= j < flat.len() ==> has_name(r, #[trigger] flat[j].full_name@),
        has_name(flat, n),
    ensures
        exists|k: int| 0 <= k < r.len() && r[k].full_name@ == n,
        forall|k1: int, k2: int|
            0 <= k1 < r.len() && 0 <= k2 < r.len() && r[k1].full_name@ == n && r[k2].full_name@
                == n ==> k1 == k2,
        forall|k: int|
            0 <= k < r.len() && #[trigger] r[k].full_name@ == n ==> r[k] == first_with_name(
                flat,
                n,
            ),
{
    let j = choose|j: int| 0 <= j < flat.len() && flat[j].full_name@ == n;
    assert(has_name(r, flat[j].full_name@));
}

} // verus!
