use gh_chk::dashboard::{Dashboard, PendingTask, TaskAction};
use gh_chk::preview::PreviewMode;
use gh_chk::prs::{MergeStateStatus, PullRequest};

fn merge_pr(id: &str, number: usize, state: MergeStateStatus) -> PullRequest {
    PullRequest {
        id: id.to_string(),
        number,
        owner: "octo".to_string(),
        repo: "tool".to_string(),
        title: format!("change {number}"),
        url: format!("https://example.com/octo/tool/pull/{number}"),
        created_at: "2026-10-01T12:00:00Z".to_string(),
        merge_state_status: state,
        review_decision: None,
        pending_reviewers: Vec::new(),
    }
}

#[test]
fn merge_of_unclean_record_issues_no_action_and_changes_nothing_but_status() {
    let records = vec![
        merge_pr("a", 1, MergeStateStatus::Blocked),
        merge_pr("b", 2, MergeStateStatus::Clean),
    ];
    let mut d = Dashboard::new(Vec::new(), records);
    d.cache.put(PreviewMode::Body, "a".to_string(), "body a".to_string());
    d.on_merge_key();
    assert!(matches!(d.pending, Some(PendingTask::MergeSelected)));
    let action = d.start_pending(1_000);
    assert!(action.is_none());
    assert_eq!(d.set.items.len(), 2);
    assert_eq!(d.set.items[0].id, "a");
    assert_eq!(d.set.cursor, Some(0));
    assert_eq!(
        d.cache.get(PreviewMode::Body, &"a".to_string()).map(|s| s.as_str()),
        Some("body a")
    );
    assert_eq!(
        d.status_message.as_deref(),
        Some("Cannot merge PR #1 in octo/tool: not in clean state")
    );
    assert_eq!(d.status_clear_at, Some(4_000));
}

#[test]
fn merge_of_clean_record_issues_the_call_for_its_id() {
    let records = vec![merge_pr("a", 7, MergeStateStatus::Clean)];
    let mut d = Dashboard::new(Vec::new(), records);
    d.on_merge_key();
    assert_eq!(d.status_message.as_deref(), Some("Merging PR #7 in octo/tool..."));
    let action = d.start_pending(1_000);
    match action {
        Some(TaskAction::Merge { id }) => assert_eq!(id, "a"),
        other => panic!("expected a merge action, got {other:?}"),
    }
    assert_eq!(d.set.items.len(), 1);
}

#[test]
fn merged_record_leaves_working_set_and_cache_in_all_modes() {
    let records = vec![
        merge_pr("a", 1, MergeStateStatus::Clean),
        merge_pr("b", 2, MergeStateStatus::Clean),
    ];
    let mut d = Dashboard::new(Vec::new(), records);
    let id = "a".to_string();
    d.cache.put(PreviewMode::Body, id.clone(), "body".to_string());
    d.cache.put(PreviewMode::Diff, id.clone(), "diff".to_string());
    d.cache.put(PreviewMode::Commits, id.clone(), "commits".to_string());
    d.cache.put(PreviewMode::Body, "b".to_string(), "other body".to_string());
    d.complete_merge(&id, Ok(()), 1_000);
    assert!(d.set.items.iter().all(|pr| pr.id != "a"));
    assert_eq!(d.set.items.len(), 1);
    assert_eq!(d.set.cursor, Some(0));
    assert!(d.cache.get(PreviewMode::Body, &id).is_none());
    assert!(d.cache.get(PreviewMode::Diff, &id).is_none());
    assert!(d.cache.get(PreviewMode::Commits, &id).is_none());
    assert_eq!(
        d.cache.get(PreviewMode::Body, &"b".to_string()).map(|s| s.as_str()),
        Some("other body")
    );
    assert_eq!(d.status_message.as_deref(), Some("✅ Merged PR #1 in octo/tool."));
    assert!(matches!(d.pending, Some(PendingTask::ReloadContributions)));
}

#[test]
fn merge_of_last_record_clamps_cursor_to_new_end() {
    let records = vec![
        merge_pr("a", 1, MergeStateStatus::Clean),
        merge_pr("b", 2, MergeStateStatus::Clean),
    ];
    let mut d = Dashboard::new(Vec::new(), records);
    d.select_next();
    assert_eq!(d.set.cursor, Some(1));
    d.complete_merge(&"b".to_string(), Ok(()), 1_000);
    assert_eq!(d.set.items.len(), 1);
    assert_eq!(d.set.cursor, Some(0));
}

#[test]
fn failed_merge_reports_and_leaves_state_unchanged() {
    let records = vec![merge_pr("a", 3, MergeStateStatus::Clean)];
    let mut d = Dashboard::new(Vec::new(), records);
    d.complete_merge(&"a".to_string(), Err("boom".to_string()), 1_000);
    assert_eq!(d.set.items.len(), 1);
    assert_eq!(
        d.status_message.as_deref(),
        Some("❌ Failed to merge PR #3 in octo/tool: boom")
    );
    assert_eq!(d.status_clear_at, Some(4_000));
    assert!(d.pending.is_none());
}

#[test]
fn merge_with_no_selection_is_refused_before_any_call() {
    let mut d = Dashboard::new(Vec::new(), Vec::new());
    d.on_merge_key();
    assert!(d.pending.is_none());
    let action = d.start_pending(1_000);
    assert!(action.is_none());
}

#[test]
fn approval_keeps_the_record_and_queues_a_scoped_reload() {
    let records = vec![merge_pr("a", 5, MergeStateStatus::Blocked)];
    let mut d = Dashboard::new(Vec::new(), records);
    d.on_approve_key();
    assert!(matches!(d.pending, Some(PendingTask::ApproveSelected)));
    let action = d.start_pending(1_000);
    match action {
        Some(TaskAction::Approve { id }) => assert_eq!(id, "a"),
        other => panic!("expected an approve action, got {other:?}"),
    }
    d.complete_approve(&"a".to_string(), Ok(()), 1_000);
    assert_eq!(d.set.items.len(), 1);
    assert_eq!(
        d.status_message.as_deref(),
        Some("✅ Approved PR #5 in octo/tool. Reloading...")
    );
    assert_eq!(d.status_clear_at, None);
    match &d.pending {
        Some(PendingTask::ReloadSelectedRepo { owner, name }) => {
            assert_eq!(owner, "octo");
            assert_eq!(name, "tool");
        },
        other => panic!("expected a scoped reload, got {other:?}"),
    }
}

#[test]
fn failed_approval_reports_and_queues_nothing() {
    let records = vec![merge_pr("a", 5, MergeStateStatus::Clean)];
    let mut d = Dashboard::new(Vec::new(), records);
    d.complete_approve(&"a".to_string(), Err("nope".to_string()), 1_000);
    assert_eq!(
        d.status_message.as_deref(),
        Some("❌ Failed to approve PR #5 in octo/tool: nope")
    );
    assert!(d.pending.is_none());
    assert_eq!(d.set.items.len(), 1);
}
