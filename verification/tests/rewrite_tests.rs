use git_history_editor::engine::rewrite_commit;
use git_history_editor::model::{Head, HistoryError, Overrides, RewriteProgress, Signature};
use git_history_editor::queries::{get_commit_detail, get_commits};
use git_history_editor::store::Repo;

fn sig(name: &str, email: &str, ts: i64) -> Signature {
    Signature {
        name: name.to_string(),
        email: email.to_string(),
        timestamp: ts,
        offset_minutes: 0,
    }
}

/// Builds a repository with `num_commits` linear commits on "main".
fn create_test_repo(num_commits: usize) -> Repo {
    let mut repo = Repo::new("example-repo".to_string());
    let mut parent: Option<usize> = None;
    for i in 0..num_commits {
        let parents = match parent {
            Some(p) => vec![p],
            None => vec![],
        };
        let author = sig("Test User", "test@example.com", 1000 + i as i64);
        let committer = sig("Test User", "test@example.com", 1000 + i as i64);
        let id = repo
            .create_commit(i, parents, author, committer, format!("Commit {}", i))
            .unwrap();
        parent = Some(id);
    }
    if num_commits > 0 {
        repo.set_branch("main".to_string(), num_commits - 1).unwrap();
    }
    repo
}

fn message_override(msg: &str) -> Overrides {
    let mut ov = Overrides::none();
    ov.message = Some(msg.to_string());
    ov
}

#[test]
fn test_rewrite_commit_changes_message() {
    let mut repo = create_test_repo(3);

    let commits = get_commits(&repo, 0, 10);
    // Get the oldest commit (last in the list since sorted newest-first)
    let oldest = &commits[2];

    let ov = message_override("New message");
    let mut progress: Vec<RewriteProgress> = Vec::new();
    let result = rewrite_commit(&mut repo, oldest.oid, &ov, &mut progress).unwrap();

    assert_eq!(result.commits_rewritten, 3); // Rewrites oldest + 2 descendants

    // Verify the new commit has the changed message
    let detail = get_commit_detail(&repo, result.new_oid).unwrap();
    assert_eq!(detail.message, "New message");
}

#[test]
fn test_rewrite_commit_changes_author() {
    let mut repo = create_test_repo(2);

    let commits = get_commits(&repo, 0, 10);
    let latest = &commits[0];

    let mut ov = Overrides::none();
    ov.author_name = Some("New Author".to_string());
    ov.author_email = Some("new@example.com".to_string());
    let mut progress: Vec<RewriteProgress> = Vec::new();
    let result = rewrite_commit(&mut repo, latest.oid, &ov, &mut progress).unwrap();

    assert_eq!(result.commits_rewritten, 1); // Only the tip commit, no descendants

    let detail = get_commit_detail(&repo, result.new_oid).unwrap();
    assert_eq!(detail.author_name, "New Author");
    assert_eq!(detail.author_email, "new@example.com");
}

#[test]
fn test_rewrite_preserves_descendants() {
    let mut repo = create_test_repo(3);

    let commits_before = get_commits(&repo, 0, 10);
    let oldest = &commits_before[2];

    let ov = message_override("Changed root");
    let mut progress: Vec<RewriteProgress> = Vec::new();
    rewrite_commit(&mut repo, oldest.oid, &ov, &mut progress).unwrap();

    // Reload commits after rewrite
    let commits_after = get_commits(&repo, 0, 10);
    assert_eq!(commits_after.len(), 3);

    // All ids should be different (rewritten)
    for (before, after) in commits_before.iter().zip(commits_after.iter()) {
        assert_ne!(before.oid, after.oid);
    }

    // But messages of non-target commits should be preserved
    assert_eq!(commits_after[0].short_message, "Commit 2");
    assert_eq!(commits_after[1].short_message, "Commit 1");
    assert_eq!(commits_after[2].short_message, "Changed root");
}

#[test]
fn test_rewrite_tip_keeps_ancestors() {
    let mut repo = create_test_repo(3);
    let before = get_commits(&repo, 0, 10);
    let tip = before[0].oid;

    let mut ov = Overrides::none();
    ov.author_name = Some("Another Author".to_string());
    let mut progress: Vec<RewriteProgress> = Vec::new();
    let result = rewrite_commit(&mut repo, tip, &ov, &mut progress).unwrap();

    assert_eq!(result.commits_rewritten, 1);
    let after = get_commits(&repo, 0, 10);
    assert_ne!(after[0].oid, before[0].oid);
    assert_eq!(after[1].oid, before[1].oid);
    assert_eq!(after[2].oid, before[2].oid);
}

#[test]
fn test_rewrite_without_effective_override_still_changes_ids() {
    let mut repo = create_test_repo(2);
    let before = get_commits(&repo, 0, 10);
    let tip = before[0].oid;

    let ov = Overrides::none();
    let mut progress: Vec<RewriteProgress> = Vec::new();
    let result = rewrite_commit(&mut repo, tip, &ov, &mut progress).unwrap();

    assert_eq!(result.commits_rewritten, 1);
    assert_ne!(result.new_oid, result.old_oid);
    let detail = get_commit_detail(&repo, result.new_oid).unwrap();
    assert_eq!(detail.message, "Commit 1");
    assert_eq!(detail.author_name, "Test User");
}

#[test]
fn test_rewrite_changes_dates() {
    let mut repo = create_test_repo(1);
    let tip = get_commits(&repo, 0, 10)[0].oid;

    let mut ov = Overrides::none();
    ov.author_date = Some(555);
    ov.author_offset = Some(-120);
    ov.committer_date = Some(777);
    ov.committer_offset = Some(60);
    let mut progress: Vec<RewriteProgress> = Vec::new();
    let result = rewrite_commit(&mut repo, tip, &ov, &mut progress).unwrap();

    let detail = get_commit_detail(&repo, result.new_oid).unwrap();
    assert_eq!(detail.author_date, 555);
    assert_eq!(detail.author_offset, -120);
    assert_eq!(detail.committer_date, 777);
    assert_eq!(detail.committer_offset, 60);
    // Name and email keep their originals when no override is given.
    assert_eq!(detail.author_name, "Test User");
    assert_eq!(detail.committer_email, "test@example.com");
}

#[test]
fn test_rewrite_preserves_tree_ids() {
    let mut repo = create_test_repo(3);
    let before = get_commits(&repo, 0, 10);
    let trees_before: Vec<usize> = before
        .iter()
        .map(|c| get_commit_detail(&repo, c.oid).unwrap().oid)
        .map(|oid| repo.commits[oid].tree)
        .collect();

    let ov = message_override("Changed root");
    let mut progress: Vec<RewriteProgress> = Vec::new();
    rewrite_commit(&mut repo, before[2].oid, &ov, &mut progress).unwrap();

    let after = get_commits(&repo, 0, 10);
    for (i, c) in after.iter().enumerate() {
        assert_eq!(repo.commits[c.oid].tree, trees_before[i]);
    }
}

#[test]
fn test_rewrite_merge_keeps_untouched_side() {
    // c0 <- c1 and c0 <- c2, then c3 merges c1 and c2; the branch is at c3.
    let mut repo = Repo::new("example-repo".to_string());
    let c0 = repo
        .create_commit(0, vec![], sig("A", "a@example.com", 1), sig("A", "a@example.com", 1), "root".to_string())
        .unwrap();
    let c1 = repo
        .create_commit(1, vec![c0], sig("A", "a@example.com", 2), sig("A", "a@example.com", 2), "side one".to_string())
        .unwrap();
    let c2 = repo
        .create_commit(2, vec![c0], sig("A", "a@example.com", 3), sig("A", "a@example.com", 3), "side two".to_string())
        .unwrap();
    let c3 = repo
        .create_commit(3, vec![c1, c2], sig("A", "a@example.com", 4), sig("A", "a@example.com", 4), "merge".to_string())
        .unwrap();
    repo.set_branch("main".to_string(), c3).unwrap();

    let ov = message_override("side one edited");
    let mut progress: Vec<RewriteProgress> = Vec::new();
    let result = rewrite_commit(&mut repo, c1, &ov, &mut progress).unwrap();

    // Only c1 and the merge that depends on it are rebuilt.
    assert_eq!(result.commits_rewritten, 2);

    let new_tip = match repo.head {
        Head::Branch { tip, .. } => tip,
        _ => panic!("expected a branch"),
    };
    let merge_detail = get_commit_detail(&repo, new_tip).unwrap();
    assert!(merge_detail.is_merge);
    assert_eq!(merge_detail.parent_oids.len(), 2);
    // First parent is the rebuilt copy of c1; second still c2 by identity.
    assert_eq!(merge_detail.parent_oids[0], result.new_oid);
    assert_eq!(merge_detail.parent_oids[1], c2);
    // The untouched root and side keep their ids and content.
    assert_eq!(get_commit_detail(&repo, c0).unwrap().message, "root");
    assert_eq!(get_commit_detail(&repo, c2).unwrap().message, "side two");
}

#[test]
fn test_rewrite_target_not_reachable() {
    let mut repo = create_test_repo(2);
    // An orphan child of the root, not reachable from the branch tip.
    let orphan = repo
        .create_commit(
            9,
            vec![0],
            sig("Test User", "test@example.com", 50),
            sig("Test User", "test@example.com", 50),
            "orphan".to_string(),
        )
        .unwrap();
    let len_before = repo.commits.len();
    let before = get_commits(&repo, 0, 10);

    let ov = message_override("will not happen");
    let mut progress: Vec<RewriteProgress> = Vec::new();
    let result = rewrite_commit(&mut repo, orphan, &ov, &mut progress);

    assert_eq!(result.unwrap_err(), HistoryError::TargetNotFound);
    // No objects created, no reference changed.
    assert_eq!(repo.commits.len(), len_before);
    assert!(repo.backup.is_none());
    let after = get_commits(&repo, 0, 10);
    assert_eq!(before.len(), after.len());
    for (b, a) in before.iter().zip(after.iter()) {
        assert_eq!(b.oid, a.oid);
    }
}

#[test]
fn test_rewrite_detached_head() {
    let mut repo = create_test_repo(2);
    repo.detach(1).unwrap();
    let ov = message_override("nope");
    let mut progress: Vec<RewriteProgress> = Vec::new();
    let result = rewrite_commit(&mut repo, 1, &ov, &mut progress);
    assert_eq!(result.unwrap_err(), HistoryError::DetachedState);
}

#[test]
fn test_rewrite_invalid_signature_override() {
    let mut repo = create_test_repo(2);
    let len_before = repo.commits.len();

    let mut ov = Overrides::none();
    ov.author_name = Some("".to_string());
    let mut progress: Vec<RewriteProgress> = Vec::new();
    let result = rewrite_commit(&mut repo, 1, &ov, &mut progress);
    assert_eq!(result.unwrap_err(), HistoryError::InvalidSignature);

    let mut ov2 = Overrides::none();
    ov2.committer_email = Some("a<b>@example.com".to_string());
    let result2 = rewrite_commit(&mut repo, 1, &ov2, &mut progress);
    assert_eq!(result2.unwrap_err(), HistoryError::InvalidSignature);

    assert_eq!(repo.commits.len(), len_before);
    assert!(repo.backup.is_none());
}

#[test]
fn test_rewrite_progress_ticks() {
    let mut repo = create_test_repo(250);
    let ov = message_override("Edited root");
    let mut progress: Vec<RewriteProgress> = Vec::new();
    rewrite_commit(&mut repo, 0, &ov, &mut progress).unwrap();

    // One tick per batch of 100 walked commits, currents strictly rising.
    assert_eq!(progress.len(), 3);
    assert_eq!(progress[0], RewriteProgress { current: 0, total: 250 });
    assert_eq!(progress[1], RewriteProgress { current: 100, total: 250 });
    assert_eq!(progress[2], RewriteProgress { current: 200, total: 250 });
}
