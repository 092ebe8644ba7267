//! Pull-request records and their textual projections.

use vstd::prelude::*;

use crate::numfmt::{dec_rep, dec_rep_int, to_decimal, to_decimal_i64, pad_left};
use crate::paint;
use crate::strutil::{before_char, prefix_before};

verus! {

/// The remote service's assessment of whether a pull request can be merged
/// cleanly right now.
#[derive(Debug, Clone, Copy, PartialEq, Eq, Structural)]
pub enum MergeStateStatus {
    Behind,
    Blocked,
    Clean,
    Dirty,
    Draft,
    HasHooks,
    Unknown,
    Unstable,
}

impl MergeStateStatus {
    /// The emoji marker shown for this merge state.
    pub open spec fn emoji_spec(self) -> Seq<char> {
        match self {
            MergeStateStatus::Behind => "⏩"@,
            MergeStateStatus::Blocked => "🚫"@,
            MergeStateStatus::Clean => "✅"@,
            MergeStateStatus::Dirty => "⚠️"@,
            MergeStateStatus::Draft => "✏️"@,
            MergeStateStatus::HasHooks => "🪝"@,
            MergeStateStatus::Unknown => "❓"@,
            MergeStateStatus::Unstable => "❌"@,
        }
    }

    pub fn to_emoji(&self) -> (r: String)
        ensures
            r@ == self.emoji_spec(),
    {
        match self {
            MergeStateStatus::Behind => "⏩",
            MergeStateStatus::Blocked => "🚫",
            MergeStateStatus::Clean => "✅",
            MergeStateStatus::Dirty => "⚠️",
            MergeStateStatus::Draft => "✏️",
            MergeStateStatus::HasHooks => "🪝",
            MergeStateStatus::Unknown => "❓",
            MergeStateStatus::Unstable => "❌",
        }.to_owned()
    }

    /// Paints `s` in the colour conventionally attached to this merge state;
    /// the painted text itself carries no promises (see `paint`).
    pub fn colorize(&self, s: &str) -> String {
        match self {
            MergeStateStatus::Behind => paint::yellow(s),
            MergeStateStatus::Blocked => paint::red(s),
            MergeStateStatus::Clean => paint::green(s),
            MergeStateStatus::Dirty => paint::yellow(s),
            MergeStateStatus::Draft => paint::white(s),
            MergeStateStatus::HasHooks => paint::yellow(s),
            MergeStateStatus::Unknown => paint::magenta(s),
            MergeStateStatus::Unstable => paint::yellow(s),
        }
    }
}

/// Aggregate outcome of the requested code reviews on a pull request.
#[derive(Debug, Clone, Copy, PartialEq, Eq, Structural)]
pub enum ReviewDecision {
    Approved,
    ChangesRequested,
    ReviewRequired,
}

impl ReviewDecision {
    /// The words shown for this decision.
    pub open spec fn display_spec(self) -> Seq<char> {
        match self {
            ReviewDecision::Approved => "approved"@,
            ReviewDecision::ChangesRequested => "changes requested"@,
            ReviewDecision::ReviewRequired => "review required"@,
        }
    }

    pub fn display_string(&self) -> (r: String)
        ensures
            r@ == self.display_spec(),
    {
        match self {
            ReviewDecision::Approved => "approved",
            ReviewDecision::ChangesRequested => "changes requested",
            ReviewDecision::ReviewRequired => "review required",
        }.to_owned()
    }

    /// Paints `s` in the colour conventionally attached to this decision.
    pub fn colorize(&self, s: &str) -> String {
        match self {
            ReviewDecision::Approved => paint::green(s),
            ReviewDecision::ChangesRequested => paint::red(s),
            ReviewDecision::ReviewRequired => paint::yellow(s),
        }
    }
}

/// One pending review request: a user or a team.
#[derive(Debug, Clone)]
pub enum RequestedReviewer {
    User { login: String },
    Team { name: String },
}

impl RequestedReviewer {
    /// The name shown for this review request, teams marked as such.
    pub open spec fn display_spec(self) -> Seq<char> {
        match self {
            RequestedReviewer::User { login } => login@,
            RequestedReviewer::Team { name } => "team:"@ + name@,
        }
    }

    pub fn display_string(&self) -> (r: String)
        ensures
            r@ == self.display_spec(),
    {
        match self {
            RequestedReviewer::User { login } => login.clone(),
            RequestedReviewer::Team { name } => {
                let mut r = "team:".to_owned();
                r.append(name.as_str());
                r
            },
        }
    }
}

/// One pull request as fetched from the remote service. Records are
/// immutable once fetched and replaced wholesale on reload; `id` is stable
/// across reloads and keys the preview cache.
#[derive(Debug, Clone)]
pub struct PullRequest {
    pub id: String,
    pub number: usize,
    pub owner: String,
    pub repo: String,
    pub title: String,
    pub url: String,
    pub created_at: String,
    pub merge_state_status: MergeStateStatus,
    pub review_decision: Option<ReviewDecision>,
    pub pending_reviewers: Vec<RequestedReviewer>,
}

impl PullRequest {
    /// `owner/name` of the repository the request belongs to.
    pub open spec fn slug_spec(self) -> Seq<char> {
        self.owner@ + "/"@ + self.repo@
    }

    pub fn slug(&self) -> (r: String)
        ensures
            r@ == self.slug_spec(),
    {
        let mut r = self.owner.clone();
        r.append("/");
        r.append(self.repo.as_str());
        r
    }

    /// `#number in owner/name`.
    pub open spec fn numslug_spec(self) -> Seq<char> {
        "#"@ + dec_rep(self.number as nat) + " in "@ + self.slug_spec()
    }

    pub fn numslug(&self) -> (r: String)
        ensures
            r@ == self.numslug_spec(),
    {
        let mut r = "#".to_owned();
        r.append(to_decimal(self.number as u64).as_str());
        r.append(" in ");
        r.append(self.slug().as_str());
        proof {
            assert(r@ =~= self.numslug_spec());
        }
        r
    }

    /// The date part of the creation timestamp: everything before the first
    /// `T`, or the whole timestamp when no `T` occurs.
    pub open spec fn created_date_spec(self) -> Seq<char> {
        prefix_before(self.created_at@, 'T')
    }

    pub fn created_date(&self) -> (r: String)
        ensures
            r@ == self.created_date_spec(),
    {
        before_char(self.created_at.as_str(), 'T')
    }

    /// The pending-review marker: empty without pending requests, the one
    /// requested name when there is exactly one, their count otherwise.
    pub open spec fn review_requests_spec(self) -> Seq<char> {
        if self.pending_reviewers@.len() == 0 {
            Seq::empty()
        } else if self.pending_reviewers@.len() == 1 {
            "[r: "@ + self.pending_reviewers@[0].display_spec() + "]"@
        } else {
            "[r: "@ + dec_rep(self.pending_reviewers@.len()) + "]"@
        }
    }

    pub fn review_requests(&self) -> (r: String)
        ensures
            r@ == self.review_requests_spec(),
    {
        if self.pending_reviewers.len() == 0 {
            String::new()
        } else if self.pending_reviewers.len() == 1 {
            let mut r = "[r: ".to_owned();
            r.append(self.pending_reviewers[0].display_string().as_str());
            r.append("]");
            proof {
                assert(r@ =~= self.review_requests_spec());
            }
            r
        } else {
            let mut r = "[r: ".to_owned();
            r.append(to_decimal(self.pending_reviewers.len() as u64).as_str());
            r.append("]");
            proof {
                assert(r@ =~= self.review_requests_spec());
            }
            r
        }
    }

    /// The review-decision marker: the decision in brackets, or empty when
    /// no decision has been recorded.
    pub open spec fn review_status_spec(self) -> Seq<char> {
        match self.review_decision {
            Some(rd) => "["@ + rd.display_spec() + "]"@,
            None => Seq::empty(),
        }
    }

    pub fn review_status(&self) -> (r: String)
        ensures
            r@ == self.review_status_spec(),
    {
        match &self.review_decision {
            Some(rd) => {
                let mut r = "[".to_owned();
                r.append(rd.display_string().as_str());
                r.append("]");
                proof {
                    assert(r@ =~= self.review_status_spec());
                }
                r
            },
            None => String::new(),
        }
    }

    /// The plain one-line rendering of the record: number, merge-state
    /// marker, slug, title, review markers and creation date.
    pub open spec fn display_spec(self) -> Seq<char> {
        "#"@ + dec_rep(self.number as nat) + " "@ + self.merge_state_status.emoji_spec() + " "@
            + self.slug_spec() + " "@ + self.title@ + " "@ + self.review_status_spec() + " "@
            + self.review_requests_spec() + " ("@ + self.created_date_spec() + ")"@
    }

    pub fn display_string(&self) -> (r: String)
        ensures
            r@ == self.display_spec(),
    {
        let mut r = "#".to_owned();
        r.append(to_decimal(self.number as u64).as_str());
        r.append(" ");
        r.append(self.merge_state_status.to_emoji().as_str());
        r.append(" ");
        r.append(self.slug().as_str());
        r.append(" ");
        r.append(self.title.as_str());
        r.append(" ");
        r.append(self.review_status().as_str());
        r.append(" ");
        r.append(self.review_requests().as_str());
        r.append(" (");
        r.append(self.created_date().as_str());
        r.append(")");
        proof {
            assert(r@ =~= self.display_spec());
        }
        r
    }

    /// The coloured one-line rendering: the same fields as `display_string`,
    /// each painted by the `colored` crate and joined with single spaces.
    /// The painted parts carry no promises, so neither does the whole; the
    /// joining itself is `join_with_spaces`.
    pub fn colorized_string(&self) -> String {
        let mut parts: Vec<String> = Vec::new();
        let mut num = "#".to_owned();
        num.append(to_decimal(self.number as u64).as_str());
        parts.push(pad_left(paint::bold(num.as_str()).as_str(), 6));
        parts.push(self.merge_state_status.to_emoji());
        parts.push(self.merge_state_status.colorize(self.url.as_str()));
        parts.push(paint::bold(self.title.as_str()));
        match &self.review_decision {
            Some(rd) => {
                let mut marker = "[".to_owned();
                marker.append(rd.display_string().as_str());
                marker.append("]");
                parts.push(rd.colorize(marker.as_str()));
            },
            None => {
                parts.push(String::new());
            },
        }
        parts.push(self.review_requests());
        let mut date = "(".to_owned();
        date.append(self.created_date().as_str());
        date.append(")");
        parts.push(paint::bright_black(date.as_str()));
        join_with_spaces(&parts)
    }
}

/// The given parts joined with one space between consecutive parts.
pub open spec fn joined_with_spaces(parts: Seq<Seq<char>>) -> Seq<char>
    decreases parts.len(),
{
    if parts.len() == 0 {
        Seq::empty()
    } else if parts.len() == 1 {
        parts[0]
    } else {
        joined_with_spaces(parts.drop_last()) + " "@ + parts.last()
    }
}

/// Joins strings with single spaces.
pub fn join_with_spaces(parts: &Vec<String>) -> (r: String)
    ensures
        r@ == joined_with_spaces(parts@.map_values(|p: String| p@)),
{
    let ghost views: Seq<Seq<char>> = parts@.map_values(|p: String| p@);
    let mut r = String::new();
    let mut i: usize = 0;
    while i < parts.len()
        invariant
            i <= parts.len(),
            views == parts@.map_values(|p: String| p@),
            r@ == joined_with_spaces(views.take(i as int)),
        decreases parts.len() - i,
    {
        if i > 0 {
            r.append(" ");
        }
        r.append(parts[i].as_str());
        proof {
            assert(views.take(i + 1).drop_last() =~= views.take(i as int));
            assert(views.take(i + 1).last() == views[i as int]);
            if i > 0 {
                assert(r@ =~= joined_with_spaces(views.take(i + 1)));
            } else {
                assert(r@ =~= joined_with_spaces(views.take(1)));
            }
        }
        i += 1;
    }
    proof {
        assert(views.take(parts@.len() as int) =~= views);
    }
    r
}

/// Per-file diff statistics with the optional unified-diff text.
#[derive(Debug, Clone)]
pub struct Diff {
    pub filename: String,
    pub additions: i64,
    pub deletions: i64,
    pub patch: Option<String>,
}

impl Diff {
    /// The block rendered for one file: a header line with the counts, then
    /// the patch text (or a note that none is available), then a blank line.
    pub open spec fn render_spec(self) -> Seq<char> {
        "=== "@ + self.filename@ + " (+"@ + dec_rep_int(self.additions as int) + ", -"@
            + dec_rep_int(self.deletions as int) + ") === \n"@ + (match self.patch {
            Some(p) => p@,
            None => ", (no textual diff available)"@,
        }) + "\n\n"@
    }

    pub fn render(&self) -> (r: String)
        ensures
            r@ == self.render_spec(),
    {
        let mut r = "=== ".to_owned();
        r.append(self.filename.as_str());
        r.append(" (+");
        r.append(to_decimal_i64(self.additions).as_str());
        r.append(", -");
        r.append(to_decimal_i64(self.deletions).as_str());
        r.append(") === \n");
        match &self.patch {
            Some(p) => r.append(p.as_str()),
            None => r.append(", (no textual diff available)"),
        }
        r.append("\n\n");
        proof {
            assert(r@ =~= self.render_spec());
        }
        r
    }
}

/// The concatenation of the rendered blocks of all diffs.
pub open spec fn concat_diff_renders(diffs: Seq<Diff>) -> Seq<char>
    decreases diffs.len(),
{
    if diffs.len() == 0 {
        Seq::empty()
    } else {
        concat_diff_renders(diffs.drop_last()) + diffs.last().render_spec()
    }
}

/// The text shown in the diff preview: every file's rendered block in order,
/// or a placeholder when the change set is empty.
pub open spec fn diff_preview_spec(diffs: Seq<Diff>) -> Seq<char> {
    if diffs.len() == 0 {
        "No file changes found."@
    } else {
        concat_diff_renders(diffs)
    }
}

/// Renders the diff preview for a list of changed files.
pub fn diff_preview_string(diffs: &Vec<Diff>) -> (r: String)
    ensures
        r@ == diff_preview_spec(diffs@),
{
    if diffs.len() == 0 {
        return "No file changes found.".to_owned();
    }
    let mut r = String::new();
    let mut i: usize = 0;
    while i < diffs.len()
        invariant
            i <= diffs.len(),
            r@ == concat_diff_renders(diffs@.take(i as int)),
        decreases diffs.len() - i,
    {
        r.append(diffs[i].render().as_str());
        proof {
            assert(diffs@.take(i + 1).drop_last() =~= diffs@.take(i as int));
            assert(diffs@.take(i + 1).last() == diffs@[i as int]);
        }
        i += 1;
    }
    proof {
        assert(diffs@.take(diffs@.len() as int) =~= diffs@);
    }
    r
}

} // verus!
