use gh_chk::assignees::max_assignees;
use gh_chk::assignees::AssigneeEvent::{Assigned, Unassigned};
use gh_chk::config::{Config, GHConfig, TokenEntry, resolve_token};
use gh_chk::dashboard::body_preview_string;
use gh_chk::numfmt::{pad_left, to_decimal, to_decimal_i64};
use gh_chk::prs::{
    diff_preview_string, Diff, MergeStateStatus, PullRequest, RequestedReviewer, ReviewDecision,
};
use gh_chk::search::Query;
use gh_chk::slug::SlugSpec;
use gh_chk::styling::{classify_diff_line, ellipsize, hex_to_rgb, DiffLineKind};

fn display_pr() -> PullRequest {
    PullRequest {
        id: "node1".to_string(),
        number: 42,
        owner: "octo".to_string(),
        repo: "tool".to_string(),
        title: "Fix the flux capacitor".to_string(),
        url: "https://example.com/octo/tool/pull/42".to_string(),
        created_at: "2026-09-30T08:15:00Z".to_string(),
        merge_state_status: MergeStateStatus::Clean,
        review_decision: Some(ReviewDecision::Approved),
        pending_reviewers: vec![RequestedReviewer::User { login: "sam".to_string() }],
    }
}

#[test]
fn slugs_and_dates_render_exactly() {
    let pr = display_pr();
    assert_eq!(pr.slug(), "octo/tool");
    assert_eq!(pr.numslug(), "#42 in octo/tool");
    assert_eq!(pr.created_date(), "2026-09-30");
}

#[test]
fn review_markers_cover_their_shapes() {
    let mut pr = display_pr();
    assert_eq!(pr.review_status(), "[approved]");
    assert_eq!(pr.review_requests(), "[r: sam]");
    pr.review_decision = Some(ReviewDecision::ChangesRequested);
    assert_eq!(pr.review_status(), "[changes requested]");
    pr.review_decision = None;
    assert_eq!(pr.review_status(), "");
    pr.pending_reviewers = Vec::new();
    assert_eq!(pr.review_requests(), "");
    pr.pending_reviewers = vec![
        RequestedReviewer::User { login: "sam".to_string() },
        RequestedReviewer::Team { name: "core".to_string() },
    ];
    assert_eq!(pr.review_requests(), "[r: 2]");
}

#[test]
fn team_reviewers_are_marked() {
    let team = RequestedReviewer::Team { name: "core".to_string() };
    assert_eq!(team.display_string(), "team:core");
    let user = RequestedReviewer::User { login: "sam".to_string() };
    assert_eq!(user.display_string(), "sam");
}

#[test]
fn record_line_renders_all_fields() {
    let pr = display_pr();
    assert_eq!(
        pr.display_string(),
        "#42 ✅ octo/tool Fix the flux capacitor [approved] [r: sam] (2026-09-30)"
    );
}

#[test]
fn colorized_line_carries_the_fields() {
    let line = display_pr().colorized_string();
    assert!(line.contains("#42"));
    assert!(line.contains("✅"));
    assert!(line.contains("https://example.com/octo/tool/pull/42"));
    assert!(line.contains("[approved]"));
    assert!(line.contains("(2026-09-30)"));
}

#[test]
fn merge_state_emoji_is_fixed_per_state() {
    assert_eq!(MergeStateStatus::Clean.to_emoji(), "✅");
    assert_eq!(MergeStateStatus::Blocked.to_emoji(), "🚫");
    assert_eq!(MergeStateStatus::Behind.to_emoji(), "⏩");
    assert_eq!(MergeStateStatus::Unknown.to_emoji(), "❓");
}

#[test]
fn diff_blocks_render_counts_and_patch() {
    let d = Diff {
        filename: "src/lib.rs".to_string(),
        additions: 3,
        deletions: 1,
        patch: Some("@@ -1 +1 @@\n-a\n+b".to_string()),
    };
    assert_eq!(d.render(), "=== src/lib.rs (+3, -1) === \n@@ -1 +1 @@\n-a\n+b\n\n");
    let d = Diff { filename: "img.png".to_string(), additions: 0, deletions: 0, patch: None };
    assert_eq!(d.render(), "=== img.png (+0, -0) === \n, (no textual diff available)\n\n");
}

#[test]
fn diff_preview_concatenates_blocks_or_reports_no_changes() {
    assert_eq!(diff_preview_string(&vec![]), "No file changes found.");
    let diffs = vec![
        Diff { filename: "a".to_string(), additions: 1, deletions: 0, patch: None },
        Diff { filename: "b".to_string(), additions: 0, deletions: 2, patch: None },
    ];
    let out = diff_preview_string(&diffs);
    assert!(out.starts_with("=== a (+1, -0) === \n"));
    assert!(out.contains("=== b (+0, -2) === \n"));
}

#[test]
fn diff_lines_classify_by_leading_characters() {
    assert_eq!(classify_diff_line("=== a.rs (+1, -0) ==="), DiffLineKind::FileHeader);
    assert_eq!(classify_diff_line("@@ -1,3 +1,4 @@"), DiffLineKind::HunkHeader);
    assert_eq!(classify_diff_line("+added"), DiffLineKind::Added);
    assert_eq!(classify_diff_line("-removed"), DiffLineKind::Removed);
    assert_eq!(classify_diff_line(" context"), DiffLineKind::Context);
    assert_eq!(classify_diff_line("=="), DiffLineKind::Context);
}

#[test]
fn ellipsize_keeps_short_and_cuts_long_strings() {
    assert_eq!(ellipsize("short", 10), "short");
    assert_eq!(ellipsize("exactly ten", 11), "exactly ten");
    assert_eq!(ellipsize("a long description", 8), "a long …");
    assert_eq!(ellipsize("abc", 0), "…");
}

#[test]
fn hex_colors_parse_with_fallbacks() {
    assert_eq!(hex_to_rgb("#8ce798"), (0x8c, 0xe7, 0x98));
    assert_eq!(hex_to_rgb("1B5D2B"), (0x1b, 0x5d, 0x2b));
    assert_eq!(hex_to_rgb("#fff"), (0, 0, 0));
    assert_eq!(hex_to_rgb("#zzzz2B"), (0, 0, 0x2b));
    assert_eq!(hex_to_rgb(""), (0, 0, 0));
}

#[test]
fn decimal_rendering_matches_std() {
    assert_eq!(to_decimal(0), "0");
    assert_eq!(to_decimal(42), "42");
    assert_eq!(to_decimal(u64::MAX), u64::MAX.to_string());
    assert_eq!(to_decimal_i64(-42), "-42");
    assert_eq!(to_decimal_i64(i64::MIN), i64::MIN.to_string());
    assert_eq!(pad_left("#4", 6), "    #4");
    assert_eq!(pad_left("wide enough", 6), "wide enough");
}

#[test]
fn slugs_parse_into_owner_or_repository() {
    match SlugSpec::parse("octo") {
        Some(SlugSpec::Owner(o)) => assert_eq!(o, "octo"),
        other => panic!("expected an owner slug, got {other:?}"),
    }
    match SlugSpec::parse("octo/tool") {
        Some(SlugSpec::Repo { owner, name }) => {
            assert_eq!(owner, "octo");
            assert_eq!(name, "tool");
        },
        other => panic!("expected a repository slug, got {other:?}"),
    }
    assert!(SlugSpec::parse("a/b/c").is_none());
}

#[test]
fn search_queries_translate_with_the_user_scope() {
    let q = Query { q: "needle".to_string(), user: Some("octo".to_string()) };
    let api = q.to_api();
    assert_eq!(api.q, "needle user:octo");
    assert_eq!(api.page, 0);
    assert_eq!(api.per_page, 100);
    let q = Query { q: "needle".to_string(), user: None };
    assert_eq!(q.to_api().q, "needle");
}

#[test]
fn token_resolution_prefers_hosts_file_then_config_then_environment() {
    let entry = TokenEntry {
        user: "sam".to_string(),
        oauth_token: "SECRET-REDACTED".to_string(),
        git_protocol: "https".to_string(),
    };
    let gh = GHConfig { entries: vec![("github.com".to_string(), entry)] };
    let conf = Config { token: Some("conf-token".to_string()) };
    assert_eq!(resolve_token(&gh, &conf, Some("env-token".to_string())), "SECRET-REDACTED");
    let empty_gh = GHConfig::new();
    assert_eq!(resolve_token(&empty_gh, &conf, Some("env-token".to_string())), "conf-token");
    let empty_conf = Config::new();
    assert_eq!(
        resolve_token(&empty_gh, &empty_conf, Some("env-token".to_string())),
        "env-token"
    );
    assert_eq!(resolve_token(&empty_gh, &empty_conf, None), "");
}

#[test]
fn max_assignees_tracks_the_peak() {
    assert_eq!(max_assignees(&vec![]), 0);
    assert_eq!(max_assignees(&vec![Assigned, Assigned, Unassigned, Assigned]), 2);
    assert_eq!(max_assignees(&vec![Unassigned, Assigned]), 0);
    assert_eq!(max_assignees(&vec![Assigned, Unassigned, Assigned, Assigned, Assigned]), 3);
}

#[test]
fn body_preview_joins_title_url_and_text() {
    assert_eq!(
        body_preview_string("Title", "https://x", "the body"),
        "Title\nhttps://x\n\nthe body"
    );
}
