//! The laws the rewrite engine and backup manager obey, stated over the same
//! spec functions their contracts use and proved from them.

use vstd::prelude::*;

use vstd::set::{axiom_set_insert_finite, axiom_set_insert_len};

use crate::backup::restored_head_ok;
use crate::engine::{
    branch_tip_of, new_id, rebuild_member, rebuilt_below, rebuilt_commit_ok, rewrite_ok_post,
};
use crate::model::{Commit, Overrides, RewriteResult};
use crate::store::Repo;
use crate::walk::{lemma_reaches_bounds, reaches};

verus! {

/// The commits a rewrite targeting `target` must rebuild: those the tip
/// reaches that descend from the target.
pub open spec fn rebuild_set(s: Seq<Commit>, tip: int, target: int) -> Set<int> {
    Set::new(|c: int| rebuild_member(s, tip, target, c))
}

/// The running count over ids agrees with the cardinality of the counted
/// set.
proof fn lemma_rebuilt_below_is_card(s: Seq<Commit>, tip: int, target: int, b: int)
    requires
        b >= 0,
    ensures
        Set::new(|c: int| 0 <= c < b && rebuild_member(s, tip, target, c)).finite(),
        rebuilt_below(s, tip, target, b) == Set::new(
            |c: int| 0 <= c < b && rebuild_member(s, tip, target, c),
        ).len(),
    decreases b,
{
    let cur = Set::new(|c: int| 0 <= c < b && rebuild_member(s, tip, target, c));
    if b == 0 {
        broadcast use vstd::set::group_set_axioms;

        assert(cur =~= Set::empty());
    } else {
        let prev = Set::new(|c: int| 0 <= c < b - 1 && rebuild_member(s, tip, target, c));
        lemma_rebuilt_below_is_card(s, tip, target, b - 1);
        if rebuild_member(s, tip, target, b - 1) {
            assert(cur =~= prev.insert(b - 1));
            axiom_set_insert_finite(prev, b - 1);
            axiom_set_insert_len(prev, b - 1);
            assert(!prev.contains(b - 1));
        } else {
            assert(cur =~= prev);
        }
    }
}

/// Law: the count a rewrite reports equals the number of commits from the
/// target to the original tip along the path of descent — the commits the
/// old tip reached that descended from the target, the target and the tip
/// included.
pub proof fn lemma_commits_rewritten_counts_descendants(
    r0: Repo,
    r1: Repo,
    target: int,
    ov: Overrides,
    res: RewriteResult,
)
    requires
        rewrite_ok_post(r0, r1, target, ov, res),
    ensures
        rebuild_set(r0.commits@, branch_tip_of(r0.head), target).finite(),
        res.commits_rewritten == rebuild_set(r0.commits@, branch_tip_of(r0.head), target).len(),
{
    let s = r0.commits@;
    let t = branch_tip_of(r0.head);
    lemma_rebuilt_below_is_card(s, t, target, t + 1);
    assert forall|c: int| rebuild_member(s, t, target, c) implies 0 <= c < t + 1 by {
        lemma_reaches_bounds(s, t, c);
    }
    assert(rebuild_set(s, t, target) =~= Set::new(
        |c: int| 0 <= c < t + 1 && rebuild_member(s, t, target, c),
    ));
}

/// Law: a commit not descended from the target is never rebuilt, and every
/// pre-existing commit keeps its id and content — the arena only grows, so
/// untouched ancestors are reused by identity, not copied.
pub proof fn lemma_untouched_ancestors(
    r0: Repo,
    r1: Repo,
    target: int,
    ov: Overrides,
    res: RewriteResult,
    c: int,
)
    requires
        rewrite_ok_post(r0, r1, target, ov, res),
        0 <= c < r0.commits@.len(),
        !reaches(r0.commits@, c, target),
    ensures
        !rebuild_member(r0.commits@, branch_tip_of(r0.head), target, c),
        r1.commits@[c] == r0.commits@[c],
{
    let s = r0.commits@;
    assert(r1.commits@.subrange(0, s.len() as int)[c] == s[c]);
}

/// Law: every rebuilt commit's new id differs from its old id, even when no
/// metadata override applies to it: fresh ids start past the end of the
/// pre-rewrite arena, below which every old id lies.
pub proof fn lemma_identity_changes(
    r0: Repo,
    r1: Repo,
    target: int,
    ov: Overrides,
    res: RewriteResult,
    c: int,
)
    requires
        rewrite_ok_post(r0, r1, target, ov, res),
        rebuild_member(r0.commits@, branch_tip_of(r0.head), target, c),
    ensures
        new_id(r0.commits@, branch_tip_of(r0.head), target, c) != c,
        new_id(r0.commits@, branch_tip_of(r0.head), target, c) >= r0.commits@.len(),
{
    lemma_reaches_bounds(r0.commits@, branch_tip_of(r0.head), c);
}

/// Law: content is never altered: every rebuilt commit's tree id equals its
/// pre-rewrite counterpart's tree id.
pub proof fn lemma_tree_preserved(
    r0: Repo,
    r1: Repo,
    target: int,
    ov: Overrides,
    res: RewriteResult,
    c: int,
)
    requires
        rewrite_ok_post(r0, r1, target, ov, res),
        rebuild_member(r0.commits@, branch_tip_of(r0.head), target, c),
    ensures
        r1.commits@[new_id(r0.commits@, branch_tip_of(r0.head), target, c)].tree
            == r0.commits@[c].tree,
{
    let s = r0.commits@;
    let t = branch_tip_of(r0.head);
    assert(rebuilt_commit_ok(s, r1.commits@, t, target, ov, c));
}

/// Law: the backup round-trips. After a rewrite the backup records exactly
/// the pre-rewrite tip; a restore then returns that tip, points the branch
/// back at it, and leaves no backup behind.
pub proof fn lemma_backup_round_trip(
    r0: Repo,
    r1: Repo,
    r2: Repo,
    target: int,
    ov: Overrides,
    res: RewriteResult,
    restored: usize,
)
    requires
        rewrite_ok_post(r0, r1, target, ov, res),
        restored == r1.backup->0,
        r2.backup is None,
        restored_head_ok(r1.head, r1.backup->0, r2.head),
    ensures
        r1.backup is Some,
        r1.backup->0 as int == branch_tip_of(r0.head),
        restored as int == branch_tip_of(r0.head),
        branch_tip_of(r2.head) == branch_tip_of(r0.head),
        r2.backup is None,
{
}

} // verus!
