use gh_chk::commits::Commit;
use gh_chk::graph::{build_commit_graph_entries, build_graph_prefix, commit_graph_preview_string, dedup_branches};

fn graph_commit(sha: &str, message: &str, parents: &[&str]) -> Commit {
    Commit {
        sha: sha.to_string(),
        message: message.to_string(),
        author_name: Some("Ada".to_string()),
        author_date: Some("2026-10-01T09:00:00Z".to_string()),
        author_login: None,
        parents: parents.iter().map(|p| p.to_string()).collect(),
    }
}

#[test]
fn single_root_commit_yields_one_single_lane_row() {
    let commits = vec![graph_commit("aaaaaaaaaa", "initial commit", &[])];
    let rows = build_commit_graph_entries(&commits);
    assert_eq!(rows.len(), 1);
    assert_eq!(rows[0].graph, "* ");
    assert_eq!(rows[0].short_sha, "aaaaaaa");
    assert_eq!(rows[0].summary, "initial commit");
}

#[test]
fn linear_chain_keeps_input_order_and_one_lane_throughout() {
    // Newest first: c depends on b depends on a.
    let commits = vec![
        graph_commit("ccccccc", "third", &["bbbbbbb"]),
        graph_commit("bbbbbbb", "second", &["aaaaaaa"]),
        graph_commit("aaaaaaa", "first", &[]),
    ];
    let rows = build_commit_graph_entries(&commits);
    assert_eq!(rows.len(), 3);
    assert_eq!(rows[0].short_sha, "ccccccc");
    assert_eq!(rows[1].short_sha, "bbbbbbb");
    assert_eq!(rows[2].short_sha, "aaaaaaa");
    for row in &rows {
        assert_eq!(row.graph, "* ");
    }
}

#[test]
fn merge_commit_opens_a_second_lane() {
    let commits = vec![
        graph_commit("m000000", "merge branch", &["p111111", "p222222"]),
        graph_commit("p111111", "mainline work", &[]),
        graph_commit("p222222", "branch work", &[]),
    ];
    let rows = build_commit_graph_entries(&commits);
    assert_eq!(rows.len(), 3);
    assert_eq!(rows[0].graph, "* ");
    // After the merge commit both parents hold a lane: the next row shows
    // the second lane's rail.
    assert_eq!(rows[1].graph, "* | ");
    assert_eq!(rows[2].graph, "* ");
}

#[test]
fn converged_parents_collapse_to_one_lane() {
    // Two children of the same parent: the lanes collapse on it.
    let commits = vec![
        graph_commit("m000000", "merge", &["c111111", "c222222"]),
        graph_commit("c111111", "left", &["r000000"]),
        graph_commit("c222222", "right", &["r000000"]),
        graph_commit("r000000", "root", &[]),
    ];
    let rows = build_commit_graph_entries(&commits);
    assert_eq!(rows.len(), 4);
    assert_eq!(rows[0].graph, "* ");
    assert_eq!(rows[1].graph, "* | ");
    assert_eq!(rows[2].graph, "* | ");
    // Both remaining lanes pointed at the root; they collapsed to one.
    assert_eq!(rows[3].graph, "* ");
}

#[test]
fn graph_prefix_marks_front_lane_and_rails() {
    assert_eq!(build_graph_prefix(&vec![]), "");
    assert_eq!(build_graph_prefix(&vec!["a".to_string()]), "* ");
    assert_eq!(
        build_graph_prefix(&vec!["a".to_string(), "b".to_string(), "c".to_string()]),
        "* | | "
    );
}

#[test]
fn dedup_branches_keeps_first_occurrences() {
    let mut lanes = vec![
        "a".to_string(),
        "b".to_string(),
        "a".to_string(),
        "c".to_string(),
        "b".to_string(),
    ];
    dedup_branches(&mut lanes);
    assert_eq!(lanes, vec!["a".to_string(), "b".to_string(), "c".to_string()]);
}

#[test]
fn short_sha_keeps_short_hashes_whole() {
    let commits = vec![graph_commit("ab12", "tiny", &[])];
    let rows = build_commit_graph_entries(&commits);
    assert_eq!(rows[0].short_sha, "ab12");
}

#[test]
fn summary_takes_first_line_trimmed_and_shortened() {
    let c = graph_commit("abcdefg", "  fix the parser  \n\nlong explanation", &[]);
    assert_eq!(c.summary(), "fix the parser");
    let long = "x".repeat(81);
    let c = graph_commit("abcdefg", &long, &[]);
    let expected = format!("{}...", "x".repeat(77));
    assert_eq!(c.summary(), expected);
    let c = graph_commit("abcdefg", &"y".repeat(80), &[]);
    assert_eq!(c.summary(), "y".repeat(80));
}

#[test]
fn display_author_prefers_the_account_login() {
    let mut c = graph_commit("abcdefg", "work", &[]);
    assert_eq!(c.display_author().as_deref(), Some("Ada"));
    c.author_login = Some("ada-l".to_string());
    assert_eq!(c.display_author().as_deref(), Some("ada-l"));
    c.author_login = None;
    c.author_name = None;
    assert_eq!(c.display_author(), None);
}

#[test]
fn display_date_takes_the_date_part() {
    let c = graph_commit("abcdefg", "work", &[]);
    assert_eq!(c.display_date().as_deref(), Some("2026-10-01"));
    let mut c = graph_commit("abcdefg", "work", &[]);
    c.author_date = None;
    assert_eq!(c.display_date(), None);
}

#[test]
fn commit_preview_lists_rows_or_a_placeholder() {
    assert_eq!(commit_graph_preview_string(&vec![]), "No commits found.");
    let commits = vec![graph_commit("abcdefg", "fix it", &[])];
    let rows = build_commit_graph_entries(&commits);
    assert_eq!(
        commit_graph_preview_string(&rows),
        "* abcdefg fix it  • Ada  (2026-10-01)\n"
    );
}
