use gh_chk::dashboard::{Dashboard, PendingTask, TaskAction};
use gh_chk::preview::PreviewMode;
use gh_chk::prs::{MergeStateStatus, PullRequest};

fn reload_pr(id: &str, number: usize, owner: &str, repo: &str) -> PullRequest {
    PullRequest {
        id: id.to_string(),
        number,
        owner: owner.to_string(),
        repo: repo.to_string(),
        title: format!("change {number}"),
        url: format!("https://example.com/{owner}/{repo}/pull/{number}"),
        created_at: "2026-10-01T12:00:00Z".to_string(),
        merge_state_status: MergeStateStatus::Clean,
        review_decision: None,
        pending_reviewers: Vec::new(),
    }
}

#[test]
fn scoped_reload_follows_selection_by_id_across_positions() {
    let records = vec![
        reload_pr("x1", 1, "octo", "alpha"),
        reload_pr("x2", 2, "octo", "alpha"),
        reload_pr("y1", 3, "octo", "beta"),
    ];
    let mut d = Dashboard::new(Vec::new(), records);
    d.select_next();
    assert_eq!(d.set.items[1].id, "x2");
    // The fresh list for octo/alpha reverses the two records: the selected
    // id x2 now comes first.
    let fresh = vec![reload_pr("x2", 2, "octo", "alpha"), reload_pr("x1", 1, "octo", "alpha")];
    d.complete_scoped_reload(&"octo".to_string(), &"alpha".to_string(), Ok(fresh), 1_000);
    assert_eq!(d.set.items.len(), 3);
    assert_eq!(d.set.items[0].id, "x2");
    assert_eq!(d.set.items[1].id, "x1");
    assert_eq!(d.set.items[2].id, "y1");
    assert_eq!(d.set.cursor, Some(0), "selection must follow the id, not the position");
    assert_eq!(d.status_message.as_deref(), Some("✅ Reloaded. 3 PRs."));
}

#[test]
fn scoped_reload_falls_back_to_splice_position_when_id_is_gone() {
    let records = vec![
        reload_pr("y1", 3, "octo", "beta"),
        reload_pr("x1", 1, "octo", "alpha"),
        reload_pr("x2", 2, "octo", "alpha"),
    ];
    let mut d = Dashboard::new(Vec::new(), records);
    d.select_next();
    d.select_next();
    assert_eq!(d.set.items[2].id, "x2");
    let fresh = vec![reload_pr("x3", 4, "octo", "alpha")];
    d.complete_scoped_reload(&"octo".to_string(), &"alpha".to_string(), Ok(fresh), 1_000);
    assert_eq!(d.set.items.len(), 2);
    assert_eq!(d.set.items[0].id, "y1");
    assert_eq!(d.set.items[1].id, "x3");
    // The old alpha records started at index 1, so the fallback selects it.
    assert_eq!(d.set.cursor, Some(1));
}

#[test]
fn scoped_reload_splices_at_end_when_repo_had_no_records() {
    let records = vec![reload_pr("y1", 3, "octo", "beta")];
    let mut d = Dashboard::new(Vec::new(), records);
    let fresh = vec![reload_pr("x1", 1, "octo", "alpha")];
    d.complete_scoped_reload(&"octo".to_string(), &"alpha".to_string(), Ok(fresh), 1_000);
    assert_eq!(d.set.items.len(), 2);
    assert_eq!(d.set.items[0].id, "y1");
    assert_eq!(d.set.items[1].id, "x1");
}

#[test]
fn scoped_reload_drops_cache_entries_of_removed_records() {
    let records = vec![reload_pr("x1", 1, "octo", "alpha"), reload_pr("y1", 3, "octo", "beta")];
    let mut d = Dashboard::new(Vec::new(), records);
    d.cache.put(PreviewMode::Body, "x1".to_string(), "old body".to_string());
    d.cache.put(PreviewMode::Body, "y1".to_string(), "kept".to_string());
    let fresh = vec![reload_pr("x9", 9, "octo", "alpha")];
    d.complete_scoped_reload(&"octo".to_string(), &"alpha".to_string(), Ok(fresh), 1_000);
    assert!(d.cache.get(PreviewMode::Body, &"x1".to_string()).is_none());
    assert_eq!(
        d.cache.get(PreviewMode::Body, &"y1".to_string()).map(|s| s.as_str()),
        Some("kept")
    );
}

#[test]
fn failed_scoped_reload_changes_only_the_status() {
    let records = vec![reload_pr("x1", 1, "octo", "alpha")];
    let mut d = Dashboard::new(Vec::new(), records);
    d.complete_scoped_reload(
        &"octo".to_string(),
        &"alpha".to_string(),
        Err("offline".to_string()),
        1_000,
    );
    assert_eq!(d.set.items.len(), 1);
    assert_eq!(d.set.items[0].id, "x1");
    assert_eq!(d.status_message.as_deref(), Some("❌ Reload error: offline"));
}

#[test]
fn full_reload_preserves_cursor_position_clamped() {
    let records = vec![
        reload_pr("a", 1, "octo", "alpha"),
        reload_pr("b", 2, "octo", "alpha"),
        reload_pr("c", 3, "octo", "alpha"),
    ];
    let mut d = Dashboard::new(Vec::new(), records);
    d.select_next();
    d.select_next();
    assert_eq!(d.set.cursor, Some(2));
    let fresh = vec![reload_pr("d", 4, "octo", "alpha"), reload_pr("e", 5, "octo", "alpha")];
    let follow_up = d.complete_reload_all(Ok(fresh), 1_000);
    assert!(follow_up.is_none());
    assert_eq!(d.set.items.len(), 2);
    assert_eq!(d.set.cursor, Some(1), "position is kept, clamped to the new length");
    assert_eq!(d.status_message.as_deref(), Some("✅ Reloaded. 2 PRs."));
    assert!(matches!(d.pending, Some(PendingTask::ReloadContributions)));
}

#[test]
fn full_reload_requests_missing_preview_content() {
    let records = vec![reload_pr("a", 1, "octo", "alpha")];
    let mut d = Dashboard::new(Vec::new(), records);
    d.preview_mode = Some(PreviewMode::Diff);
    let fresh = vec![reload_pr("b", 2, "octo", "alpha")];
    let follow_up = d.complete_reload_all(Ok(fresh), 1_000);
    match follow_up {
        Some(TaskAction::FetchPreview { mode, owner, name, number, id }) => {
            assert_eq!(mode, PreviewMode::Diff);
            assert_eq!(owner, "octo");
            assert_eq!(name, "alpha");
            assert_eq!(number, 2);
            assert_eq!(id, "b");
        },
        other => panic!("expected a preview fetch, got {other:?}"),
    }
}

#[test]
fn full_reload_keeps_present_preview_content_without_refetch() {
    let records = vec![reload_pr("a", 1, "octo", "alpha")];
    let mut d = Dashboard::new(Vec::new(), records);
    d.preview_mode = Some(PreviewMode::Body);
    d.cache.put(PreviewMode::Body, "a".to_string(), "cached".to_string());
    let fresh = vec![reload_pr("a", 1, "octo", "alpha")];
    let follow_up = d.complete_reload_all(Ok(fresh), 1_000);
    assert!(follow_up.is_none());
    assert_eq!(
        d.cache.get(PreviewMode::Body, &"a".to_string()).map(|s| s.as_str()),
        Some("cached")
    );
}

#[test]
fn failed_full_reload_changes_only_the_status() {
    let records = vec![reload_pr("a", 1, "octo", "alpha")];
    let mut d = Dashboard::new(Vec::new(), records);
    let follow_up = d.complete_reload_all(Err("offline".to_string()), 1_000);
    assert!(follow_up.is_none());
    assert_eq!(d.set.items.len(), 1);
    assert_eq!(d.status_message.as_deref(), Some("❌ Reload error: offline"));
}

#[test]
fn reload_key_queues_full_reload_and_start_returns_fetch_all() {
    let mut d = Dashboard::new(Vec::new(), vec![reload_pr("a", 1, "octo", "alpha")]);
    d.on_reload_key();
    assert!(matches!(d.pending, Some(PendingTask::ReloadAll)));
    assert_eq!(d.status_message.as_deref(), Some("🔄 Reloading..."));
    let action = d.start_pending(1_000);
    assert!(matches!(action, Some(TaskAction::FetchAll)));
    assert!(d.pending.is_none());
}

#[test]
fn contribution_reload_failure_becomes_a_transient_status() {
    let mut d = Dashboard::new(Vec::new(), vec![reload_pr("a", 1, "octo", "alpha")]);
    d.pending = Some(PendingTask::ReloadContributions);
    let action = d.start_pending(1_000);
    assert!(matches!(action, Some(TaskAction::FetchContributions)));
    d.complete_contributions(Err("offline".to_string()), 2_000);
    assert_eq!(d.status_message.as_deref(), Some("❌ Contrib load error: offline"));
    assert_eq!(d.status_clear_at, Some(5_000));
    d.complete_contributions(Ok(()), 6_000);
    assert_eq!(d.status_message.as_deref(), Some("❌ Contrib load error: offline"));
}
