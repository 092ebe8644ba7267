use gh_chk::dashboard::{Dashboard, PendingTask};
use gh_chk::preview::{PreviewCache, PreviewMode};
use gh_chk::prs::{MergeStateStatus, PullRequest};

fn cache_pr(id: &str, number: usize) -> PullRequest {
    PullRequest {
        id: id.to_string(),
        number,
        owner: "octo".to_string(),
        repo: "tool".to_string(),
        title: "a rather descriptive title".to_string(),
        url: format!("https://example.com/octo/tool/pull/{number}"),
        created_at: "2026-10-01T12:00:00Z".to_string(),
        merge_state_status: MergeStateStatus::Clean,
        review_decision: None,
        pending_reviewers: Vec::new(),
    }
}

#[test]
fn prune_removes_exactly_the_stale_ids_in_all_modes() {
    let mut cache = PreviewCache::new();
    cache.put(PreviewMode::Body, "keep".to_string(), "kb".to_string());
    cache.put(PreviewMode::Diff, "keep".to_string(), "kd".to_string());
    cache.put(PreviewMode::Commits, "keep".to_string(), "kc".to_string());
    cache.put(PreviewMode::Body, "stale".to_string(), "sb".to_string());
    cache.put(PreviewMode::Commits, "stale".to_string(), "sc".to_string());
    cache.prune(&vec!["keep".to_string(), "unrelated".to_string()]);
    let keep = "keep".to_string();
    let stale = "stale".to_string();
    assert_eq!(cache.get(PreviewMode::Body, &keep).map(|s| s.as_str()), Some("kb"));
    assert_eq!(cache.get(PreviewMode::Diff, &keep).map(|s| s.as_str()), Some("kd"));
    assert_eq!(cache.get(PreviewMode::Commits, &keep).map(|s| s.as_str()), Some("kc"));
    assert!(cache.get(PreviewMode::Body, &stale).is_none());
    assert!(cache.get(PreviewMode::Commits, &stale).is_none());
}

#[test]
fn put_replaces_previous_content_for_the_same_key() {
    let mut cache = PreviewCache::new();
    let id = "x".to_string();
    cache.put(PreviewMode::Body, id.clone(), "first".to_string());
    cache.put(PreviewMode::Body, id.clone(), "second".to_string());
    assert_eq!(cache.get(PreviewMode::Body, &id).map(|s| s.as_str()), Some("second"));
    assert!(cache.get(PreviewMode::Diff, &id).is_none());
}

#[test]
fn drop_id_clears_one_record_in_every_mode() {
    let mut cache = PreviewCache::new();
    cache.put(PreviewMode::Body, "x".to_string(), "b".to_string());
    cache.put(PreviewMode::Diff, "x".to_string(), "d".to_string());
    cache.put(PreviewMode::Body, "y".to_string(), "other".to_string());
    cache.drop_id(&"x".to_string());
    assert!(cache.get(PreviewMode::Body, &"x".to_string()).is_none());
    assert!(cache.get(PreviewMode::Diff, &"x".to_string()).is_none());
    assert_eq!(cache.get(PreviewMode::Body, &"y".to_string()).map(|s| s.as_str()), Some("other"));
}

#[test]
fn has_reports_cached_keys() {
    let mut cache = PreviewCache::new();
    assert!(!cache.has(PreviewMode::Body, &"x".to_string()));
    cache.put(PreviewMode::Body, "x".to_string(), "b".to_string());
    assert!(cache.has(PreviewMode::Body, &"x".to_string()));
    assert!(!cache.has(PreviewMode::Commits, &"x".to_string()));
}

#[test]
fn advancing_preview_queues_a_fetch_for_uncached_content() {
    let mut d = Dashboard::new(Vec::new(), vec![cache_pr("a", 4)]);
    d.advance_preview();
    assert_eq!(d.preview_mode, Some(PreviewMode::Body));
    assert_eq!(d.preview_scroll, 0);
    assert!(matches!(d.pending, Some(PendingTask::LoadPreview { mode: PreviewMode::Body })));
    assert_eq!(d.status_message.as_deref(), Some("🔎 Loading Body for #4..."));
    assert_eq!(d.status_clear_at, None);
}

#[test]
fn advancing_preview_skips_the_fetch_when_content_is_cached() {
    let mut d = Dashboard::new(Vec::new(), vec![cache_pr("a", 4)]);
    d.cache.put(PreviewMode::Body, "a".to_string(), "cached".to_string());
    d.advance_preview();
    assert_eq!(d.preview_mode, Some(PreviewMode::Body));
    assert!(d.pending.is_none());
}

#[test]
fn preview_cycles_forward_saturating_and_backward_to_closed() {
    let mut d = Dashboard::new(Vec::new(), Vec::new());
    d.advance_preview();
    assert_eq!(d.preview_mode, Some(PreviewMode::Body));
    d.advance_preview();
    assert_eq!(d.preview_mode, Some(PreviewMode::Diff));
    d.advance_preview();
    assert_eq!(d.preview_mode, Some(PreviewMode::Commits));
    d.advance_preview();
    assert_eq!(d.preview_mode, Some(PreviewMode::Commits));
    d.retreat_preview();
    assert_eq!(d.preview_mode, Some(PreviewMode::Diff));
    d.retreat_preview();
    assert_eq!(d.preview_mode, Some(PreviewMode::Body));
    d.retreat_preview();
    assert_eq!(d.preview_mode, None);
    d.retreat_preview();
    assert_eq!(d.preview_mode, None);
}

#[test]
fn completed_preview_load_caches_and_reports() {
    let mut d = Dashboard::new(Vec::new(), vec![cache_pr("a", 4)]);
    d.advance_preview();
    let _ = d.start_pending(1_000);
    d.complete_preview_load(PreviewMode::Body, &"a".to_string(), Ok("the body".to_string()), 2_000);
    assert_eq!(
        d.cache.get(PreviewMode::Body, &"a".to_string()).map(|s| s.as_str()),
        Some("the body")
    );
    assert_eq!(d.status_message.as_deref(), Some("✅ Loaded Body for #4"));
    assert_eq!(d.status_clear_at, Some(5_000));
}

#[test]
fn preview_content_for_a_departed_record_is_discarded() {
    let mut d = Dashboard::new(Vec::new(), vec![cache_pr("a", 4)]);
    d.complete_preview_load(PreviewMode::Body, &"gone".to_string(), Ok("text".to_string()), 1_000);
    assert!(!d.cache.has(PreviewMode::Body, &"gone".to_string()));
    assert_eq!(d.status_message, None);
}

#[test]
fn failed_preview_load_reports_transiently() {
    let mut d = Dashboard::new(Vec::new(), vec![cache_pr("a", 4)]);
    d.complete_preview_load(PreviewMode::Diff, &"a".to_string(), Err("timeout".to_string()), 1_000);
    assert_eq!(d.status_message.as_deref(), Some("❌ Load error: timeout"));
    assert!(!d.cache.has(PreviewMode::Diff, &"a".to_string()));
}

#[test]
fn preview_text_reflects_selection_mode_and_cache() {
    let mut d = Dashboard::new(Vec::new(), Vec::new());
    assert_eq!(d.preview_text(), "No selection");
    let mut d = Dashboard::new(Vec::new(), vec![cache_pr("a", 4)]);
    assert_eq!(d.preview_text(), "Preview closed");
    d.preview_mode = Some(PreviewMode::Diff);
    assert_eq!(d.preview_text(), "Loading...Diff");
    d.cache.put(PreviewMode::Diff, "a".to_string(), "the diff".to_string());
    assert_eq!(d.preview_text(), "the diff");
}

#[test]
fn help_text_shows_status_or_bindings_with_mode() {
    let mut d = Dashboard::new(Vec::new(), vec![cache_pr("a", 4)]);
    assert_eq!(
        d.help_text(),
        "q:quit • ?:help • Enter/o:open • m:merge • a:approve • r:reload • ←/→:list/body/diff/graph • ↑/↓:navigate"
    );
    d.preview_mode = Some(PreviewMode::Commits);
    assert_eq!(
        d.help_text(),
        "q:quit • ?:help • Enter/o:open • m:merge • a:approve • r:reload • ←/→:list/body/diff/graph • ↑/↓/wheel:scroll • mode:Commits"
    );
    d.set_status_persistent("busy".to_string());
    assert_eq!(d.help_text(), "busy");
}

#[test]
fn preview_title_shortens_the_record_title_to_the_panel() {
    let mut d = Dashboard::new(Vec::new(), vec![cache_pr("a", 4)]);
    assert_eq!(d.preview_title(80), "Preview");
    d.preview_mode = Some(PreviewMode::Body);
    assert_eq!(d.preview_title(80), "#4 octo/tool • Body • a rather descriptive title");
    assert_eq!(d.preview_title(40), "#4 octo/tool • Body • a rather desc…");
    assert_eq!(d.preview_title(10), "#4 octo/tool • Body");
}
