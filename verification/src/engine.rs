//! The rewrite engine: given a target commit in the current branch's
//! ancestry and a set of metadata overrides, rebuilds the target and every
//! commit that transitively depends on it as fresh immutable objects,
//! reconnects the chain, and atomically repoints the branch, after recording
//! a backup of the old tip.
//!
//! The rebuild set is exactly the set of commits both reachable from the tip
//! and descended from the target. The engine makes a single oldest-first pass
//! and rebuilds a commit when it is the target or has an already-rebuilt
//! parent; the contract proves that this closure equals the descendant set.
//! Fresh ids are appended to the arena in pass order, so the id of every
//! rebuilt copy is determined by the pre-rewrite state alone: `new_id`.

use vstd::prelude::*;

use crate::model::{
    author_with_overrides, committer_with_overrides, opt_view, overridden, overrides_ok,
    overrides_valid, sig_eq, sig_matches, Commit, Head, HistoryError, Overrides, RewriteProgress,
    RewriteResult, Signature,
};
use crate::store::{commits_wf, Repo};
use crate::walk::{
    ancestry_oldest_first, lemma_reachable_below_le, lemma_reachable_below_mono,
    lemma_reachable_upto_len, lemma_reaches_bounds, lemma_reaches_parent, lemma_reaches_self,
    lemma_reaches_trans, reachability_marks, reachable_below, reaches,
};

verus! {

/// A commit belongs to the rebuild set when the branch tip reaches it and it
/// reaches the target: it is a descendant of the target on the current
/// branch (the target itself included).
pub open spec fn rebuild_member(s: Seq<Commit>, tip: int, target: int, c: int) -> bool {
    reaches(s, tip, c) && reaches(s, c, target)
}

/// How many ids below `b` belong to the rebuild set.
pub open spec fn rebuilt_below(s: Seq<Commit>, tip: int, target: int, b: int) -> nat
    decreases b,
{
    if b <= 0 {
        0
    } else {
        rebuilt_below(s, tip, target, b - 1) + (if rebuild_member(s, tip, target, b - 1) {
            1nat
        } else {
            0nat
        })
    }
}

/// The fresh id the rebuilt copy of `c` receives: copies are appended to the
/// arena in oldest-first order, starting at the end of the pre-rewrite arena.
pub open spec fn new_id(s: Seq<Commit>, tip: int, target: int, c: int) -> int {
    s.len() + rebuilt_below(s, tip, target, c) as int
}

/// Where a rebuilt commit's parent edge points: to the parent's rebuilt copy
/// when the parent was rebuilt, otherwise to the untouched original (the
/// non-rewritten side of a merge).
pub open spec fn remapped_parent(s: Seq<Commit>, tip: int, target: int, p: usize) -> int {
    if rebuild_member(s, tip, target, p as int) {
        new_id(s, tip, target, p as int)
    } else {
        p as int
    }
}

/// What the rebuilt copy of `c` contains in the post-rewrite arena `s2`: the
/// same tree (content is never altered), every parent remapped, and — only
/// for the target — the metadata overrides applied; every other rebuilt
/// commit keeps its signatures and message verbatim.
pub open spec fn rebuilt_commit_ok(
    s: Seq<Commit>,
    s2: Seq<Commit>,
    tip: int,
    target: int,
    ov: Overrides,
    c: int,
) -> bool {
    let nid = new_id(s, tip, target, c);
    let orig = s[c];
    let neu = s2[nid];
    &&& 0 <= nid < s2.len()
    &&& neu.tree == orig.tree
    &&& neu.parents@.len() == orig.parents@.len()
    &&& (forall|k: int|
        0 <= k < orig.parents@.len() ==> (neu.parents@[k] as int) == remapped_parent(
            s,
            tip,
            target,
            orig.parents@[k],
        ))
    &&& if c == target {
        &&& author_with_overrides(orig.author, ov, neu.author)
        &&& committer_with_overrides(orig.committer, ov, neu.committer)
        &&& neu.message@ == overridden(orig.message@, opt_view(ov.message))
    } else {
        &&& sig_eq(neu.author, orig.author)
        &&& sig_eq(neu.committer, orig.committer)
        &&& neu.message@ == orig.message@
    }
}

/// The tip of the checked-out branch; meaningful only when HEAD is a branch.
pub open spec fn branch_tip_of(h: Head) -> int {
    match h {
        Head::Branch { name, tip } => tip as int,
        _ => -1,
    }
}

/// Everything a successful rewrite guarantees, relating the pre-rewrite
/// repository `r0` to the post-rewrite repository `r1`.
pub open spec fn rewrite_ok_post(
    r0: Repo,
    r1: Repo,
    target: int,
    ov: Overrides,
    res: RewriteResult,
) -> bool {
    let s = r0.commits@;
    match r0.head {
        Head::Branch { name, tip } => {
            let t = tip as int;
            let total = rebuilt_below(s, t, target, t + 1) as int;
            &&& reaches(s, t, target)
            &&& r1.path == r0.path
            &&& r1.commits@.len() == s.len() + total
            &&& r1.commits@.subrange(0, s.len() as int) == s
            &&& (forall|c: int|
                rebuild_member(s, t, target, c) ==> rebuilt_commit_ok(
                    s,
                    r1.commits@,
                    t,
                    target,
                    ov,
                    c,
                ))
            &&& r1.head == (Head::Branch { name, tip: new_id(s, t, target, t) as usize })
            &&& r1.backup == Some(tip)
            &&& res.old_oid as int == target
            &&& res.new_oid as int == new_id(s, t, target, target)
            &&& res.commits_rewritten as int == total
        },
        _ => false,
    }
}

/// Counting rebuild-set members never outruns the range counted over.
pub proof fn lemma_rebuilt_below_le(s: Seq<Commit>, tip: int, target: int, b: int)
    requires
        b >= 0,
    ensures
        rebuilt_below(s, tip, target, b) <= b,
    decreases b,
{
    if b > 0 {
        lemma_rebuilt_below_le(s, tip, target, b - 1);
    }
}

/// Counting rebuild-set members is monotone in the bound.
pub proof fn lemma_rebuilt_below_mono(s: Seq<Commit>, tip: int, target: int, b1: int, b2: int)
    requires
        b1 <= b2,
    ensures
        rebuilt_below(s, tip, target, b1) <= rebuilt_below(s, tip, target, b2),
    decreases b2 - b1,
{
    if b1 < b2 {
        lemma_rebuilt_below_mono(s, tip, target, b1, b2 - 1);
    }
}

/// Whether any parent already has a rebuilt copy recorded in the id map.
fn any_parent_mapped(map: &Vec<Option<usize>>, parents: &Vec<usize>) -> (b: bool)
    requires
        forall|k: int| 0 <= k < parents@.len() ==> (parents@[k] as int) < map@.len(),
    ensures
        b == exists|k: int| 0 <= k < parents@.len() && map@[parents@[k] as int] is Some,
{
    let mut k: usize = 0;
    while k < parents.len()
        invariant
            forall|j: int| 0 <= j < parents@.len() ==> (parents@[j] as int) < map@.len(),
            0 <= k <= parents@.len(),
            forall|j: int| 0 <= j < k ==> map@[parents@[j] as int] is None,
        decreases parents@.len() - k,
    {
        if map[parents[k]].is_some() {
            return true;
        }
        k = k + 1;
    }
    false
}

/// Remaps every parent through the id map, falling back to the original id
/// for a parent that was not rebuilt.
fn remap_parents(map: &Vec<Option<usize>>, parents: &Vec<usize>) -> (r: Vec<usize>)
    requires
        forall|k: int| 0 <= k < parents@.len() ==> (parents@[k] as int) < map@.len(),
    ensures
        r@.len() == parents@.len(),
        forall|k: int|
            0 <= k < parents@.len() ==> (r@[k] as int) == (if map@[parents@[k] as int] is Some {
                map@[parents@[k] as int]->0 as int
            } else {
                parents@[k] as int
            }),
{
    let mut r: Vec<usize> = Vec::new();
    let mut k: usize = 0;
    while k < parents.len()
        invariant
            forall|j: int| 0 <= j < parents@.len() ==> (parents@[j] as int) < map@.len(),
            0 <= k <= parents@.len(),
            r@.len() == k,
            forall|j: int|
                0 <= j < k ==> (r@[j] as int) == (if map@[parents@[j] as int] is Some {
                    map@[parents@[j] as int]->0 as int
                } else {
                    parents@[j] as int
                }),
        decreases parents@.len() - k,
    {
        let p = parents[k];
        match map[p] {
            Some(n) => r.push(n),
            None => r.push(p),
        }
        k = k + 1;
    }
    r
}

/// Builds the signature a rebuilt target commit carries: each provided
/// override applied, the original field kept where the override is absent.
fn apply_sig_overrides(
    orig: &Signature,
    name: &Option<String>,
    email: &Option<String>,
    date: &Option<i64>,
    offset: &Option<i32>,
) -> (r: Signature)
    ensures
        sig_matches(
            r,
            overridden(orig.name@, opt_view(*name)),
            overridden(orig.email@, opt_view(*email)),
            overridden(orig.timestamp, *date),
            overridden(orig.offset_minutes, *offset),
        ),
{
    Signature {
        name: match name {
            Some(n) => n.clone(),
            None => orig.name.clone(),
        },
        email: match email {
            Some(e) => e.clone(),
            None => orig.email.clone(),
        },
        timestamp: match date {
            Some(d) => *d,
            None => orig.timestamp,
        },
        offset_minutes: match offset {
            Some(o) => *o,
            None => orig.offset_minutes,
        },
    }
}

/// Rewrites the target commit's metadata and rebuilds every descendant on
/// the current branch.
///
/// The branch must be checked out (`DetachedState` otherwise) and the target
/// must lie in the branch's ancestry (`TargetNotFound` otherwise); a name or
/// email supplied in the overrides must be well formed (`InvalidSignature`
/// otherwise). On any failure nothing is changed. On success: the old tip is
/// recorded as the backup before anything else changes; the arena only
/// grows, every pre-existing object untouched; exactly the commits reachable
/// from the tip and descended from the target are rebuilt, each receiving a
/// fresh id, the same tree, remapped parents, and — for the target alone —
/// the overridden metadata; finally the branch points at the rebuilt tip.
/// Progress ticks are appended for the caller to observe: each reports the
/// total number of commits walked, and their currents increase strictly.
#[verifier::rlimit(100)]
#[verifier::spinoff_prover]
pub fn rewrite_commit(
    repo: &mut Repo,
    target_oid: usize,
    overrides: &Overrides,
    progress: &mut Vec<RewriteProgress>,
) -> (r: Result<RewriteResult, HistoryError>)
    requires
        old(repo).wf(),
    ensures
        final(repo).wf(),
        !(old(repo).head is Branch) ==> r == Err::<RewriteResult, HistoryError>(
            HistoryError::DetachedState,
        ) && *final(repo) == *old(repo) && final(progress)@ == old(progress)@,
        old(repo).head is Branch ==> ({
            let s = old(repo).commits@;
            let t = branch_tip_of(old(repo).head);
            let tg = target_oid as int;
            &&& (!reaches(s, t, tg) ==> r == Err::<RewriteResult, HistoryError>(
                HistoryError::TargetNotFound,
            ) && *final(repo) == *old(repo) && final(progress)@ == old(progress)@)
            &&& (reaches(s, t, tg) && !overrides_valid(*overrides) ==> r == Err::<
                RewriteResult,
                HistoryError,
            >(HistoryError::InvalidSignature) && *final(repo) == *old(repo) && final(progress)@
                == old(progress)@)
            &&& (reaches(s, t, tg) && overrides_valid(*overrides) ==> ({
                &&& r is Ok
                &&& rewrite_ok_post(*old(repo), *final(repo), tg, *overrides, r->Ok_0)
                &&& final(progress)@.len() > old(progress)@.len()
                &&& final(progress)@.subrange(0, old(progress)@.len() as int) == old(progress)@
                &&& (forall|j: int|
                    old(progress)@.len() <= j < final(progress)@.len() ==> (final(progress)@[j].total as int) == reachable_below(s, t, t + 1)
                        && (final(progress)@[j].current as int) < reachable_below(s, t, t + 1))
                &&& (forall|j1: int, j2: int|
                    old(progress)@.len() <= j1 < j2 < final(progress)@.len()
                        ==> final(progress)@[j1].current < final(progress)@[j2].current)
            }))
        }),
{
    let ghost s = old(repo).commits@;
    let ghost tg = target_oid as int;

    // Resolve HEAD to the checked-out branch.
    let (branch_name, tip): (String, usize) = match &repo.head {
        Head::Branch { name, tip } => (name.clone(), *tip),
        _ => {
            return Err(HistoryError::DetachedState);
        },
    };
    let ghost t = tip as int;

    // Take the oldest-first walk of the branch's ancestry; its length is the
    // progress total.
    let w = match ancestry_oldest_first(repo, tip) {
        Ok(w) => w,
        Err(e) => {
            return Err(e);
        },
    };
    let total = w.len();
    proof {
        lemma_reachable_upto_len(s, t, t + 1);
    }
    let marks = reachability_marks(repo, tip);

    // The target must appear in the walk.
    if target_oid > tip {
        proof {
            if reaches(s, t, tg) {
                lemma_reaches_bounds(s, t, tg);
            }
        }
        return Err(HistoryError::TargetNotFound);
    }
    if !marks[target_oid] {
        return Err(HistoryError::TargetNotFound);
    }

    // Validate the override signatures before touching anything.
    if !overrides_ok(overrides) {
        return Err(HistoryError::InvalidSignature);
    }

    // Record the backup reference before any object is created: the sole
    // recovery path if the operation is interrupted.
    repo.backup = Some(tip);

    let n0 = repo.commits.len();
    let mut oid_map: Vec<Option<usize>> = Vec::new();
    let mut i: usize = 0;
    while i < n0
        invariant
            0 <= i <= n0,
            oid_map@.len() == i,
            forall|j: int| 0 <= j < i ==> oid_map@[j] is None,
        decreases n0 - i,
    {
        oid_map.push(None);
        i = i + 1;
    }

    let mut commits_rewritten: usize = 0;
    let mut idx: usize = 0;
    let mut c: usize = 0;
    proof {
        lemma_reaches_bounds(s, t, tg);
    }
    while c <= tip
        invariant
            repo.wf(),
            n0 as int == s.len(),
            t == tip as int,
            tg == target_oid as int,
            t < n0,
            0 <= tg <= t,
            commits_wf(s),
            reaches(s, t, tg),
            marks@.len() == tip + 1,
            forall|j: int| 0 <= j <= tip ==> marks@[j] == reaches(s, t, j),
            0 <= c <= tip + 1,
            oid_map@.len() == n0,
            forall|j: int|
                0 <= j < n0 ==> ((#[trigger] oid_map@[j]) is Some <==> (rebuild_member(s, t, tg, j)
                    && j < c)),
            forall|j: int|
                0 <= j < n0 && (#[trigger] oid_map@[j]) is Some ==> (oid_map@[j]->0 as int)
                    == new_id(s, t, tg, j),
            repo.commits@.len() == n0 + rebuilt_below(s, t, tg, c as int),
            repo.commits@.subrange(0, n0 as int) == s,
            forall|j: int|
                rebuild_member(s, t, tg, j) && j < c ==> rebuilt_commit_ok(
                    s,
                    repo.commits@,
                    t,
                    tg,
                    *overrides,
                    j,
                ),
            commits_rewritten as int == rebuilt_below(s, t, tg, c as int),
            idx as int == reachable_below(s, t, c as int),
            idx <= total,
            total as int == reachable_below(s, t, t + 1),
            repo.path == old(repo).path,
            repo.head == old(repo).head,
            repo.backup == Some(tip),
            progress@.len() >= old(progress)@.len(),
            idx > 0 ==> progress@.len() > old(progress)@.len(),
            progress@.subrange(0, old(progress)@.len() as int) == old(progress)@,
            forall|j: int|
                old(progress)@.len() <= j < progress@.len() ==> progress@[j].total == total
                    && progress@[j].current < idx,
            forall|j1: int, j2: int|
                old(progress)@.len() <= j1 < j2 < progress@.len() ==> progress@[j1].current
                    < progress@[j2].current,
        decreases tip + 1 - c,
    {
        let ghost reach_c = reaches(s, t, c as int);
        let ghost mem = rebuild_member(s, t, tg, c as int);
        proof {
            assert(rebuilt_below(s, t, tg, c as int + 1) == rebuilt_below(s, t, tg, c as int) + (
            if rebuild_member(s, t, tg, c as int) {
                1nat
            } else {
                0nat
            }));
            assert(reachable_below(s, t, c as int + 1) == reachable_below(s, t, c as int) + (
            if reaches(s, t, c as int) {
                1nat
            } else {
                0nat
            }));
            lemma_reachable_below_le(s, t, c as int);
            lemma_rebuilt_below_le(s, t, tg, c as int);
            lemma_reachable_below_mono(s, t, c as int + 1, t + 1);
        }
        if marks[c] {
            if idx % 100 == 0 {
                progress.push(RewriteProgress { current: idx, total });
            }
            let ghost arena_before = repo.commits@;
            let commit = repo.commits[c].clone();
            proof {
                assert(repo.commits@[c as int] == s[c as int]) by {
                    assert(repo.commits@.subrange(0, n0 as int)[c as int] == s[c as int]);
                }
            }
            let is_target = c == target_oid;
            let has_mapped = any_parent_mapped(&oid_map, &commit.parents);
            proof {
                // The pass condition coincides with rebuild-set membership.
                if is_target {
                    lemma_reaches_self(s, c as int);
                    assert(mem);
                }
                if has_mapped {
                    let k = choose|k: int|
                        0 <= k < commit.parents@.len() && oid_map@[commit.parents@[k] as int]
                            is Some;
                    let p = s[c as int].parents@[k] as int;
                    assert(rebuild_member(s, t, tg, p));
                    lemma_reaches_parent(s, c as int, k);
                    lemma_reaches_trans(s, c as int, p, tg);
                    assert(mem);
                }
                if !is_target && !has_mapped && mem {
                    // A member that is not the target has a member parent,
                    // already mapped because the pass is oldest-first.
                    assert(c as int != tg);
                    assert(reaches(s, c as int, tg));
                    let k = choose|k: int|
                        0 <= k < s[c as int].parents@.len() && reaches(
                            s,
                            s[c as int].parents@[k] as int,
                            tg,
                        );
                    let p = s[c as int].parents@[k] as int;
                    lemma_reaches_parent(s, c as int, k);
                    lemma_reaches_trans(s, t, c as int, p);
                    assert(rebuild_member(s, t, tg, p));
                    assert(oid_map@[p] is Some);
                    assert(false);
                }
            }
            if is_target || has_mapped {
                let new_parents = remap_parents(&oid_map, &commit.parents);
                let author = if is_target {
                    apply_sig_overrides(
                        &commit.author,
                        &overrides.author_name,
                        &overrides.author_email,
                        &overrides.author_date,
                        &overrides.author_offset,
                    )
                } else {
                    commit.author.clone()
                };
                let committer = if is_target {
                    apply_sig_overrides(
                        &commit.committer,
                        &overrides.committer_name,
                        &overrides.committer_email,
                        &overrides.committer_date,
                        &overrides.committer_offset,
                    )
                } else {
                    commit.committer.clone()
                };
                let message = if is_target {
                    match &overrides.message {
                        Some(m) => m.clone(),
                        None => commit.message.clone(),
                    }
                } else {
                    commit.message.clone()
                };
                proof {
                    // Every remapped parent resolves in the grown arena.
                    assert forall|k: int|
                        0 <= k < new_parents@.len() implies (new_parents@[k] as int)
                        < repo.commits@.len() by {
                        let p = s[c as int].parents@[k];
                        assert((p as int) < c as int);
                        if oid_map@[p as int] is Some {
                            assert(rebuild_member(s, t, tg, p as int));
                            assert(rebuilt_below(s, t, tg, p as int + 1) == rebuilt_below(
                                s,
                                t,
                                tg,
                                p as int,
                            ) + 1);
                            lemma_rebuilt_below_mono(s, t, tg, p as int + 1, c as int);
                        }
                    }
                }
                let new_oid = match repo.create_commit(
                    commit.tree,
                    new_parents,
                    author,
                    committer,
                    message,
                ) {
                    Ok(id) => id,
                    Err(_) => {
                        return Err(HistoryError::IncompleteRewrite);
                    },
                };
                oid_map.set(c, Some(new_oid));
                commits_rewritten = commits_rewritten + 1;
                proof {
                    assert(repo.commits@.subrange(0, n0 as int) =~= s);
                    // The commit just appended satisfies the rebuilt-copy
                    // contract, and earlier copies are untouched by the push.
                    assert(rebuilt_commit_ok(s, repo.commits@, t, tg, *overrides, c as int));
                    assert forall|j: int|
                        rebuild_member(s, t, tg, j) && j < c as int + 1 implies rebuilt_commit_ok(
                        s,
                        repo.commits@,
                        t,
                        tg,
                        *overrides,
                        j,
                    ) by {
                        if j < c as int {
                            assert(rebuilt_commit_ok(s, arena_before, t, tg, *overrides, j));
                            assert(new_id(s, t, tg, j) < arena_before.len());
                        }
                    }
                }
            } else {
                proof {
                    assert(!mem);
                }
            }
            idx = idx + 1;
        } else {
            proof {
                assert(!reach_c);
                assert(!mem);
            }
        }
        c = c + 1;
    }

    // The tip is always its own descendant, so it was rebuilt; this lookup
    // is a defensive check of that invariant.
    proof {
        lemma_reaches_self(s, t);
        lemma_reaches_self(s, tg);
        assert(rebuild_member(s, t, tg, t));
        assert(rebuild_member(s, t, tg, tg));
    }
    let new_tip = match oid_map[tip] {
        Some(x) => x,
        None => {
            return Err(HistoryError::IncompleteRewrite);
        },
    };

    // The single externally visible state transition: repoint the branch.
    repo.head = Head::Branch { name: branch_name, tip: new_tip };

    let new_target = match oid_map[target_oid] {
        Some(x) => x,
        None => {
            return Err(HistoryError::IncompleteRewrite);
        },
    };
    proof {
        // Every rebuild-set member has an id at most the tip's, so the loop
        // covered all of them.
        assert forall|cc: int| rebuild_member(s, t, tg, cc) implies rebuilt_commit_ok(
            s,
            repo.commits@,
            t,
            tg,
            *overrides,
            cc,
        ) by {
            lemma_reaches_bounds(s, t, cc);
        }
    }
    Ok(
        RewriteResult {
            old_oid: target_oid,
            new_oid: new_target,
            commits_rewritten,
        },
    )
}

} // verus!
