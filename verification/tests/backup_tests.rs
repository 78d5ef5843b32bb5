use git_history_editor::backup::{backup_ref_name, check_backup, restore_backup};
use git_history_editor::engine::rewrite_commit;
use git_history_editor::model::{HistoryError, Overrides, RewriteProgress, Signature};
use git_history_editor::queries::get_commits;
use git_history_editor::store::Repo;

fn sig(name: &str, email: &str, ts: i64) -> Signature {
    Signature {
        name: name.to_string(),
        email: email.to_string(),
        timestamp: ts,
        offset_minutes: 0,
    }
}

/// Builds a repository with `num_commits` linear commits on "main".
fn create_test_repo(num_commits: usize) -> Repo {
    let mut repo = Repo::new("example-repo".to_string());
    let mut parent: Option<usize> = None;
    for i in 0..num_commits {
        let parents = match parent {
            Some(p) => vec![p],
            None => vec![],
        };
        let author = sig("Test User", "test@example.com", 1000 + i as i64);
        let committer = sig("Test User", "test@example.com", 1000 + i as i64);
        let id = repo
            .create_commit(i, parents, author, committer, format!("Commit {}", i))
            .unwrap();
        parent = Some(id);
    }
    if num_commits > 0 {
        repo.set_branch("main".to_string(), num_commits - 1).unwrap();
    }
    repo
}

fn message_override(msg: &str) -> Overrides {
    let mut ov = Overrides::none();
    ov.message = Some(msg.to_string());
    ov
}

#[test]
fn test_backup_and_restore() {
    let mut repo = create_test_repo(2);

    let commits_before = get_commits(&repo, 0, 10);
    let original_head_oid = commits_before[0].oid;

    // Rewrite and verify backup exists
    let ov = message_override("Rewritten");
    let mut progress: Vec<RewriteProgress> = Vec::new();
    rewrite_commit(&mut repo, original_head_oid, &ov, &mut progress).unwrap();

    let backup = check_backup(&repo);
    assert!(backup.exists);
    assert_eq!(backup.backup_oid, Some(original_head_oid));

    // Restore
    let restored_oid = restore_backup(&mut repo).unwrap();
    assert_eq!(restored_oid, original_head_oid);

    // Backup should be gone
    let backup_after = check_backup(&repo);
    assert!(!backup_after.exists);

    // Commits should be back to original
    let commits_after = get_commits(&repo, 0, 10);
    assert_eq!(commits_after[0].oid, original_head_oid);
}

#[test]
fn test_no_backup_initially() {
    let repo = create_test_repo(1);
    let backup = check_backup(&repo);
    assert!(!backup.exists);
    assert!(backup.backup_oid.is_none());
}

#[test]
fn test_restore_without_backup() {
    let mut repo = create_test_repo(2);
    let result = restore_backup(&mut repo);
    assert_eq!(result.unwrap_err(), HistoryError::NoBackup);
}

#[test]
fn test_restore_detached_head() {
    let mut repo = create_test_repo(2);
    repo.detach(0).unwrap();
    let result = restore_backup(&mut repo);
    assert_eq!(result.unwrap_err(), HistoryError::DetachedState);
}

#[test]
fn test_second_rewrite_overwrites_backup() {
    let mut repo = create_test_repo(2);
    let first_tip = get_commits(&repo, 0, 10)[0].oid;

    let ov = message_override("First edit");
    let mut progress: Vec<RewriteProgress> = Vec::new();
    rewrite_commit(&mut repo, first_tip, &ov, &mut progress).unwrap();
    let second_tip = get_commits(&repo, 0, 10)[0].oid;

    let ov2 = message_override("Second edit");
    rewrite_commit(&mut repo, second_tip, &ov2, &mut progress).unwrap();

    // The backup now records the tip as it stood before the second rewrite.
    let backup = check_backup(&repo);
    assert!(backup.exists);
    assert_eq!(backup.backup_oid, Some(second_tip));
}

#[test]
fn test_backup_reports_branch_name() {
    let repo = create_test_repo(1);
    let backup = check_backup(&repo);
    assert_eq!(backup.branch, "main");
}

#[test]
fn test_backup_ref_name_layout() {
    assert_eq!(
        backup_ref_name("main"),
        "refs/git-history-editor/pre-rewrite/main"
    );
    assert_eq!(
        backup_ref_name("feature/x"),
        "refs/git-history-editor/pre-rewrite/feature/x"
    );
}
