//! The backup manager: one reserved reference per branch records the branch
//! tip immediately before a rewrite, and is the sole recovery path. A new
//! rewrite overwrites the prior backup; nothing but a restore removes one.

use vstd::prelude::*;

use crate::model::{BackupInfo, Head, HistoryError};
use crate::store::Repo;

verus! {

/// After a restore, the branch keeps its name and points at the backed-up
/// tip; meaningful only when HEAD was on a branch.
pub open spec fn restored_head_ok(h0: Head, b: usize, h1: Head) -> bool {
    match h0 {
        Head::Branch { name, tip } => h1 == (Head::Branch { name, tip: b }),
        _ => true,
    }
}

/// The name of the backup reference for a branch: a reserved namespace,
/// disjoint from normal branch and tag namespaces, keyed by the branch's
/// short name.
pub fn backup_ref_name(branch_shorthand: &str) -> (r: String)
    ensures
        r@ == "refs/git-history-editor/pre-rewrite/"@ + branch_shorthand@,
{
    let prefix = String::from_str("refs/git-history-editor/pre-rewrite/");
    prefix.concat(branch_shorthand)
}

/// Reports whether a backup exists for the current branch, and which commit
/// it records: a pure read, nothing changes.
pub fn check_backup(repo: &Repo) -> (info: BackupInfo)
    ensures
        info.exists == (repo.backup is Some),
        info.backup_oid == repo.backup,
        info.branch@ == (match repo.head {
            Head::Branch { name, tip } => name@,
            Head::Detached { id } => "HEAD"@,
            Head::Unborn => "unknown"@,
        }),
{
    let branch = match &repo.head {
        Head::Branch { name, tip } => name.clone(),
        Head::Detached { id } => String::from_str("HEAD"),
        Head::Unborn => String::from_str("unknown"),
    };
    match repo.backup {
        Some(oid) => BackupInfo { exists: true, backup_oid: Some(oid), branch },
        None => BackupInfo { exists: false, backup_oid: None, branch },
    }
}

/// Resets the current branch to the backed-up tip and removes the backup
/// reference. Fails with `DetachedState` when HEAD is not on a branch and
/// with `NoBackup` when no backup exists; nothing changes on failure. On
/// success returns the restored tip: the branch points at it, the backup is
/// gone, and the object arena is untouched.
pub fn restore_backup(repo: &mut Repo) -> (r: Result<usize, HistoryError>)
    requires
        old(repo).wf(),
    ensures
        final(repo).wf(),
        final(repo).path == old(repo).path,
        final(repo).commits@ == old(repo).commits@,
        !(old(repo).head is Branch) ==> r == Err::<usize, HistoryError>(HistoryError::DetachedState)
            && *final(repo) == *old(repo),
        old(repo).head is Branch && old(repo).backup is None ==> r == Err::<usize, HistoryError>(
            HistoryError::NoBackup,
        ) && *final(repo) == *old(repo),
        old(repo).head is Branch && old(repo).backup is Some ==> {
            &&& r == Ok::<usize, HistoryError>(old(repo).backup->0)
            &&& final(repo).backup is None
            &&& restored_head_ok(old(repo).head, old(repo).backup->0, final(repo).head)
        },
{
    let name = match &repo.head {
        Head::Branch { name, tip } => name.clone(),
        _ => {
            return Err(HistoryError::DetachedState);
        },
    };
    let backup_oid = match repo.backup {
        Some(oid) => oid,
        None => {
            return Err(HistoryError::NoBackup);
        },
    };
    // Reset the branch to the backed-up tip, then delete the backup.
    repo.head = Head::Branch { name, tip: backup_oid };
    repo.backup = None;
    Ok(backup_oid)
}

} // verus!
