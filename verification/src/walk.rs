//! The history walker: reachability along parent edges, and the oldest-first
//! (reverse topological) linearization of a branch's ancestry.
//!
//! In a well-formed arena every parent id is strictly smaller than its
//! child's id, so ascending id order is already a topological order; the
//! walker only has to select the ids reachable from the tip. A commit with
//! several parents (a merge) is visited once, after all of its parents, and a
//! graph with several roots poses no difficulty: reachability simply has
//! several minimal elements.

use vstd::prelude::*;

use crate::model::{Commit, HistoryError};
use crate::store::{commits_wf, Repo};

verus! {

/// `to` is `from` itself or one of its ancestors: there is a chain of parent
/// edges from `from` down to `to`. False whenever `from` does not resolve or
/// the arena is malformed.
pub open spec fn reaches(s: Seq<Commit>, from: int, to: int) -> bool
    decreases from,
{
    if 0 <= from < s.len() && commits_wf(s) {
        from == to || exists|k: int|
            0 <= k < s[from].parents@.len() && reaches(s, s[from].parents@[k] as int, to)
    } else {
        false
    }
}

/// Every commit reaches itself.
pub proof fn lemma_reaches_self(s: Seq<Commit>, c: int)
    requires
        commits_wf(s),
        0 <= c < s.len(),
    ensures
        reaches(s, c, c),
{
}

/// Reachability stays inside the arena and never climbs: an ancestor's id is
/// at most the descendant's.
pub proof fn lemma_reaches_bounds(s: Seq<Commit>, from: int, to: int)
    requires
        reaches(s, from, to),
    ensures
        0 <= to <= from < s.len(),
        commits_wf(s),
    decreases from,
{
    if from != to {
        let k = choose|k: int|
            0 <= k < s[from].parents@.len() && reaches(s, s[from].parents@[k] as int, to);
        lemma_reaches_bounds(s, s[from].parents@[k] as int, to);
    }
}

/// Every commit reaches each of its parents.
pub proof fn lemma_reaches_parent(s: Seq<Commit>, c: int, k: int)
    requires
        commits_wf(s),
        0 <= c < s.len(),
        0 <= k < s[c].parents@.len(),
    ensures
        reaches(s, c, s[c].parents@[k] as int),
{
    let p = s[c].parents@[k] as int;
    assert(0 <= p < s.len());
    lemma_reaches_self(s, p);
    assert(0 <= k < s[c].parents@.len() && reaches(s, s[c].parents@[k] as int, p));
}

/// Reachability is transitive.
pub proof fn lemma_reaches_trans(s: Seq<Commit>, a: int, b: int, c: int)
    requires
        reaches(s, a, b),
        reaches(s, b, c),
    ensures
        reaches(s, a, c),
    decreases a,
{
    if a != b {
        let k = choose|k: int|
            0 <= k < s[a].parents@.len() && reaches(s, s[a].parents@[k] as int, b);
        let p = s[a].parents@[k] as int;
        lemma_reaches_bounds(s, p, b);
        lemma_reaches_trans(s, p, b, c);
        assert(0 <= k < s[a].parents@.len() && reaches(s, s[a].parents@[k] as int, c));
    }
}

/// A strict ancestor is a parent of some commit that the descendant reaches:
/// the last edge of the chain can be exhibited.
pub proof fn lemma_reaches_pred(s: Seq<Commit>, a: int, d: int)
    requires
        reaches(s, a, d),
        a != d,
    ensures
        exists|c: int, k: int|
            reaches(s, a, c) && 0 <= c < s.len() && 0 <= k < s[c].parents@.len() && (s[c].parents@[k]
                as int) == d,
    decreases a,
{
    lemma_reaches_bounds(s, a, d);
    let k = choose|k: int|
        0 <= k < s[a].parents@.len() && reaches(s, s[a].parents@[k] as int, d);
    let p = s[a].parents@[k] as int;
    if p == d {
        lemma_reaches_self(s, a);
        assert(reaches(s, a, a) && 0 <= a < s.len() && 0 <= k < s[a].parents@.len() && (s[a].parents@[k]
            as int) == d);
    } else {
        lemma_reaches_pred(s, p, d);
        let (c, kk) = choose|c: int, kk: int|
            reaches(s, p, c) && 0 <= c < s.len() && 0 <= kk < s[c].parents@.len() && (s[c].parents@[kk]
                as int) == d;
        lemma_reaches_parent(s, a, k);
        lemma_reaches_trans(s, a, p, c);
        assert(reaches(s, a, c) && 0 <= c < s.len() && 0 <= kk < s[c].parents@.len() && (s[c].parents@[kk]
            as int) == d);
    }
}

/// The ids below `b` reachable from `tip`, in ascending (oldest-first) order.
pub open spec fn reachable_upto(s: Seq<Commit>, tip: int, b: int) -> Seq<usize>
    decreases b,
{
    if b <= 0 {
        Seq::empty()
    } else if reaches(s, tip, b - 1) {
        reachable_upto(s, tip, b - 1).push((b - 1) as usize)
    } else {
        reachable_upto(s, tip, b - 1)
    }
}

/// The full ancestry of `tip`, oldest first: every commit appears after all
/// of its ancestors.
pub open spec fn ancestry(s: Seq<Commit>, tip: int) -> Seq<usize> {
    reachable_upto(s, tip, tip + 1)
}

/// How many ids below `b` are reachable from `tip`.
pub open spec fn reachable_below(s: Seq<Commit>, tip: int, b: int) -> nat
    decreases b,
{
    if b <= 0 {
        0
    } else {
        reachable_below(s, tip, b - 1) + (if reaches(s, tip, b - 1) {
            1nat
        } else {
            0nat
        })
    }
}

/// The oldest-first linearization has exactly one entry per reachable id.
pub proof fn lemma_reachable_upto_len(s: Seq<Commit>, tip: int, b: int)
    ensures
        reachable_upto(s, tip, b).len() == reachable_below(s, tip, b),
    decreases b,
{
    if b > 0 {
        lemma_reachable_upto_len(s, tip, b - 1);
    }
}

/// Counting never outruns the range counted over.
pub proof fn lemma_reachable_below_le(s: Seq<Commit>, tip: int, b: int)
    requires
        b >= 0,
    ensures
        reachable_below(s, tip, b) <= b,
    decreases b,
{
    if b > 0 {
        lemma_reachable_below_le(s, tip, b - 1);
    }
}

/// Counting is monotone in the bound.
pub proof fn lemma_reachable_below_mono(s: Seq<Commit>, tip: int, b1: int, b2: int)
    requires
        b1 <= b2,
    ensures
        reachable_below(s, tip, b1) <= reachable_below(s, tip, b2),
    decreases b2 - b1,
{
    if b1 < b2 {
        lemma_reachable_below_mono(s, tip, b1, b2 - 1);
    }
}

/// Every entry of the linearization lies below the bound and is reachable,
/// and entries are strictly ascending.
pub proof fn lemma_reachable_upto_elems(s: Seq<Commit>, tip: int, b: int)
    requires
        s.len() <= usize::MAX as int,
    ensures
        forall|j: int|
            0 <= j < reachable_upto(s, tip, b).len() ==> (reachable_upto(s, tip, b)[j] as int) < b
                && reaches(s, tip, reachable_upto(s, tip, b)[j] as int),
        forall|j1: int, j2: int|
            0 <= j1 < j2 < reachable_upto(s, tip, b).len() ==> reachable_upto(s, tip, b)[j1]
                < reachable_upto(s, tip, b)[j2],
    decreases b,
{
    if b > 0 {
        lemma_reachable_upto_elems(s, tip, b - 1);
        let w0 = reachable_upto(s, tip, b - 1);
        let w = reachable_upto(s, tip, b);
        if reaches(s, tip, b - 1) {
            lemma_reaches_bounds(s, tip, b - 1);
            assert(w == w0.push((b - 1) as usize));
            assert forall|j: int|
                0 <= j < w.len() implies (w[j] as int) < b && reaches(s, tip, w[j] as int) by {
                if j < w0.len() {
                    assert(w[j] == w0[j]);
                } else {
                    assert(w[j] == (b - 1) as usize);
                }
            }
            assert forall|j1: int, j2: int| 0 <= j1 < j2 < w.len() implies w[j1] < w[j2] by {
                if j2 < w0.len() {
                    assert(w[j1] == w0[j1] && w[j2] == w0[j2]);
                } else {
                    assert(w[j2] == (b - 1) as usize);
                    assert(w[j1] == w0[j1]);
                    assert((w0[j1] as int) < b - 1);
                }
            }
        } else {
            assert(w == w0);
        }
    }
}

/// Computes, for each id up to the tip, whether the tip reaches it: a single
/// downward pass that marks the tip and then propagates marks to parents, so
/// shared ancestors are visited once and the pass terminates on any finite
/// graph.
pub(crate) fn reachability_marks(repo: &Repo, tip: usize) -> (m: Vec<bool>)
    requires
        repo.wf(),
        (tip as int) < repo.commits@.len(),
    ensures
        m@.len() == tip + 1,
        forall|c: int| 0 <= c <= tip ==> m@[c] == reaches(repo.commits@, tip as int, c),
{
    let ghost s = repo.commits@;
    let ghost t = tip as int;
    // The arena length is a usize, so tip + 1 cannot overflow.
    let _len: usize = repo.commits.len();
    let n = tip + 1;
    let mut m: Vec<bool> = Vec::new();
    let mut i: usize = 0;
    while i < n
        invariant
            0 <= i <= n,
            m@.len() == i,
            forall|c: int| 0 <= c < i ==> m@[c] == false,
        decreases n - i,
    {
        m.push(false);
        i = i + 1;
    }
    m.set(tip, true);
    proof {
        lemma_reaches_self(s, t);
    }
    let mut i: usize = n;
    while i > 0
        invariant
            repo.wf(),
            s == repo.commits@,
            t == tip as int,
            t < s.len(),
            n == tip + 1,
            0 <= i <= n,
            m@.len() == n,
            m@[t] == true,
            forall|c: int| 0 <= c < n && m@[c] ==> reaches(s, t, c),
            forall|c: int| i <= c < n && reaches(s, t, c) ==> m@[c],
            forall|cc: int, k: int|
                i <= cc < n && m@[cc] && 0 <= k < s[cc].parents@.len() ==> m@[s[cc].parents@[k]
                    as int],
        decreases i,
    {
        let c = i - 1;
        if m[c] {
            let ghost m_before = m@;
            let parents = &repo.commits[c].parents;
            let mut k: usize = 0;
            while k < parents.len()
                invariant
                    repo.wf(),
                    s == repo.commits@,
                    t == tip as int,
                    t < s.len(),
                    n == tip + 1,
                    0 <= c < n,
                    (c as int) < s.len(),
                    parents@ == s[c as int].parents@,
                    0 <= k <= parents@.len(),
                    m@.len() == n,
                    m@[t] == true,
                    m@[c as int] == true,
                    forall|cc: int| 0 <= cc < n && m_before[cc] ==> m@[cc],
                    forall|cc: int| 0 <= cc < n && m@[cc] ==> reaches(s, t, cc),
                    forall|cc: int| c < cc < n && reaches(s, t, cc) ==> m@[cc],
                    forall|cc: int, kk: int|
                        c < cc < n && m@[cc] && 0 <= kk < s[cc].parents@.len() ==> m@[s[cc].parents@[kk]
                            as int],
                    forall|kk: int| 0 <= kk < k ==> m@[s[c as int].parents@[kk] as int],
                decreases parents@.len() - k,
            {
                let p = parents[k];
                proof {
                    assert((p as int) < c as int);
                    lemma_reaches_parent(s, c as int, k as int);
                    lemma_reaches_trans(s, t, c as int, p as int);
                }
                m.set(p, true);
                k = k + 1;
            }
        }
        proof {
            // Completeness extends downward to c: a reachable c is either the
            // tip itself or the parent of a marked, already-processed commit.
            if reaches(s, t, c as int) && !m@[c as int] {
                assert(t != c as int);
                lemma_reaches_pred(s, t, c as int);
                let (cc, kk) = choose|cc: int, kk: int|
                    reaches(s, t, cc) && 0 <= cc < s.len() && 0 <= kk < s[cc].parents@.len() && (
                    s[cc].parents@[kk] as int) == c as int;
                assert((c as int) < cc);
                lemma_reaches_bounds(s, t, cc);
                assert(m@[cc]);
                assert(false);
            }
        }
        i = c;
    }
    m
}

/// Produces the oldest-first sequence of all commit ids reachable from the
/// given starting id by following parent edges, deduplicated, every commit
/// after all of its ancestors. Fails with `Resolution` exactly when the
/// starting id does not resolve to a commit.
pub fn ancestry_oldest_first(repo: &Repo, tip: usize) -> (r: Result<Vec<usize>, HistoryError>)
    requires
        repo.wf(),
    ensures
        r is Ok <==> (tip as int) < repo.commits@.len(),
        r is Ok ==> r->Ok_0@ == ancestry(repo.commits@, tip as int),
        r is Err ==> r->Err_0 == HistoryError::Resolution,
{
    let ghost s = repo.commits@;
    let ghost t = tip as int;
    if tip >= repo.commits.len() {
        return Err(HistoryError::Resolution);
    }
    let m = reachability_marks(repo, tip);
    let mut w: Vec<usize> = Vec::new();
    let mut i: usize = 0;
    while i <= tip
        invariant
            t == tip as int,
            t < s.len(),
            tip < usize::MAX,
            m@.len() == tip + 1,
            forall|c: int| 0 <= c <= tip ==> m@[c] == reaches(s, t, c),
            0 <= i <= tip + 1,
            w@ == reachable_upto(s, t, i as int),
        decreases tip + 1 - i,
    {
        if m[i] {
            w.push(i);
        }
        proof {
            assert(w@ =~= reachable_upto(s, t, i as int + 1));
        }
        i = i + 1;
    }
    Ok(w)
}

} // verus!
