use gh_chk::dashboard::Dashboard;
use gh_chk::preview::PreviewMode;
use gh_chk::prs::{MergeStateStatus, PullRequest};

fn nav_pr(id: &str, number: usize) -> PullRequest {
    PullRequest {
        id: id.to_string(),
        number,
        owner: "octo".to_string(),
        repo: "tool".to_string(),
        title: format!("change {number}"),
        url: format!("https://example.com/octo/tool/pull/{number}"),
        created_at: "2026-10-01T12:00:00Z".to_string(),
        merge_state_status: MergeStateStatus::Clean,
        review_decision: None,
        pending_reviewers: Vec::new(),
    }
}

fn nav_dashboard(n: usize) -> Dashboard {
    let records: Vec<PullRequest> = (0..n).map(|i| nav_pr(&format!("id{i}"), i)).collect();
    Dashboard::new(Vec::new(), records)
}

#[test]
fn select_next_cycles_back_to_start() {
    let mut d = nav_dashboard(3);
    assert_eq!(d.set.cursor, Some(0));
    d.select_next();
    assert_eq!(d.set.cursor, Some(1));
    d.select_next();
    assert_eq!(d.set.cursor, Some(2));
    d.select_next();
    assert_eq!(d.set.cursor, Some(0));
}

#[test]
fn select_next_cycles_from_middle() {
    let mut d = nav_dashboard(4);
    d.select_next();
    assert_eq!(d.set.cursor, Some(1));
    for _ in 0..4 {
        d.select_next();
    }
    assert_eq!(d.set.cursor, Some(1));
}

#[test]
fn select_previous_wraps_to_end() {
    let mut d = nav_dashboard(3);
    d.select_previous();
    assert_eq!(d.set.cursor, Some(2));
    d.select_previous();
    assert_eq!(d.set.cursor, Some(1));
}

#[test]
fn navigation_is_a_no_op_on_empty_set() {
    let mut d = nav_dashboard(0);
    assert_eq!(d.set.cursor, None);
    d.select_next();
    assert_eq!(d.set.cursor, None);
    d.select_previous();
    assert_eq!(d.set.cursor, None);
}

#[test]
fn navigation_resets_preview_scroll() {
    let mut d = nav_dashboard(2);
    d.preview_mode = Some(PreviewMode::Body);
    d.scroll_down(5);
    assert_eq!(d.preview_scroll, 5);
    d.preview_mode = None;
    d.select_next();
    assert_eq!(d.preview_scroll, 0);
}

#[test]
fn scroll_saturates_at_zero_and_max() {
    let mut d = nav_dashboard(1);
    d.preview_mode = Some(PreviewMode::Diff);
    d.scroll_up(3);
    assert_eq!(d.preview_scroll, 0);
    d.scroll_down(u16::MAX);
    d.scroll_down(10);
    assert_eq!(d.preview_scroll, u16::MAX);
}

#[test]
fn scroll_has_no_effect_while_preview_closed() {
    let mut d = nav_dashboard(1);
    assert_eq!(d.preview_mode, None);
    d.scroll_down(4);
    assert_eq!(d.preview_scroll, 0);
}

#[test]
fn down_key_scrolls_with_preview_and_navigates_without() {
    let mut d = nav_dashboard(3);
    d.on_down();
    assert_eq!(d.set.cursor, Some(1));
    d.preview_mode = Some(PreviewMode::Body);
    d.on_down();
    assert_eq!(d.set.cursor, Some(1));
    assert_eq!(d.preview_scroll, 1);
    d.on_up();
    assert_eq!(d.preview_scroll, 0);
    d.preview_mode = None;
    d.on_up();
    assert_eq!(d.set.cursor, Some(0));
}

#[test]
fn status_tick_clears_transient_at_expiry_only() {
    let mut d = nav_dashboard(1);
    d.set_status_transient("saved".to_string(), 1_000);
    assert_eq!(d.status_clear_at, Some(4_000));
    d.tick_status(3_999);
    assert_eq!(d.status_message.as_deref(), Some("saved"));
    d.tick_status(4_000);
    assert_eq!(d.status_message, None);
    assert_eq!(d.status_clear_at, None);
}

#[test]
fn persistent_status_never_auto_clears() {
    let mut d = nav_dashboard(1);
    d.set_status_persistent("working".to_string());
    assert_eq!(d.status_clear_at, None);
    d.tick_status(u64::MAX);
    assert_eq!(d.status_message.as_deref(), Some("working"));
    d.dismiss_status();
    assert_eq!(d.status_message, None);
}

#[test]
fn quit_flag_is_set_on_request() {
    let mut d = nav_dashboard(1);
    assert!(!d.should_quit);
    d.quit();
    assert!(d.should_quit);
}
