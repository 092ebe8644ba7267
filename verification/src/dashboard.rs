//! The dashboard controller: the state machine behind the interactive view.
//!
//! The controller owns the working set, the preview panel's mode and scroll,
//! the preview cache, the status line with its expiry, and the single
//! pending task. Input handlers mutate the state and may enqueue one task;
//! `start_pending` turns the queued task into the remote action the caller
//! must perform, and the `complete_*` methods apply the remote outcome. The
//! caller runs the loop and the network; every decision is made here.

use vstd::prelude::*;

use crate::numfmt::{dec_rep, to_decimal};
use crate::preview::{PreviewCache, PreviewMode};
use crate::prs::{MergeStateStatus, PullRequest};
use crate::slug::SlugSpec;
use crate::workingset::{
    fallback_cursor, find_id, ids_view, lemma_without_id_absent, spliced, without_id, WorkingSet,
};

verus! {

/// How long a transient status message lingers, in milliseconds.
pub const STATUS_LINGER_MILLIS: u64 = 3000;

/// One queued unit of deferred work. At most one task is pending at a time;
/// the input handlers require the queue to be empty.
#[derive(Debug, Clone)]
pub enum PendingTask {
    MergeSelected,
    ApproveSelected,
    ReloadAll,
    ReloadSelectedRepo { owner: String, name: String },
    ReloadContributions,
    LoadPreview { mode: PreviewMode },
}

/// The remote operation the caller must perform for a started task.
#[derive(Debug, Clone)]
pub enum TaskAction {
    Merge { id: String },
    Approve { id: String },
    FetchAll,
    FetchRepo { owner: String, name: String },
    FetchPreview { mode: PreviewMode, owner: String, name: String, number: usize, id: String },
    FetchContributions,
}

/// The controller state.
pub struct Dashboard {
    pub specs: Vec<SlugSpec>,
    pub set: WorkingSet,
    pub preview_mode: Option<PreviewMode>,
    pub preview_scroll: u16,
    pub cache: PreviewCache,
    pub status_message: Option<String>,
    pub status_clear_at: Option<u64>,
    pub pending: Option<PendingTask>,
    pub should_quit: bool,
}

/// Whether a status expiry has passed at time `now`. A persistent message
/// carries no expiry and never satisfies this.
pub open spec fn status_expired(clear_at: Option<u64>, now: u64) -> bool {
    match clear_at {
        Some(t) => now >= t,
        None => false,
    }
}

/// A transiently set status is seen as expired by every loop iteration at
/// or past its expiry, and a persistently set one (no expiry) by none: with
/// `tick_status`'s contract, the one is cleared and the other never is.
pub proof fn lemma_status_discipline(expiry: u64, now: u64)
    ensures
        now >= expiry ==> status_expired(Some(expiry), now),
        !status_expired(None::<u64>, now),
{
}

/// The persistent status shown while a merge is in flight.
pub open spec fn merging_text(pr: PullRequest) -> Seq<char> {
    "Merging PR "@ + pr.numslug_spec() + "..."@
}

/// The transient refusal shown for a merge on a not-clean record.
pub open spec fn cannot_merge_text(pr: PullRequest) -> Seq<char> {
    "Cannot merge PR "@ + pr.numslug_spec() + ": not in clean state"@
}

/// The transient status shown after a successful merge.
pub open spec fn merged_text(pr: PullRequest) -> Seq<char> {
    "✅ Merged PR "@ + pr.numslug_spec() + "."@
}

/// The transient status shown after a failed merge.
pub open spec fn merge_failed_text(pr: PullRequest, e: Seq<char>) -> Seq<char> {
    "❌ Failed to merge PR "@ + pr.numslug_spec() + ": "@ + e
}

/// The transient status shown after a failed merge of a record that has
/// left the working set.
pub open spec fn merge_failed_generic_text(e: Seq<char>) -> Seq<char> {
    "❌ Failed to merge PR: "@ + e
}

/// The transient status shown after a successful merge of a record that has
/// left the working set.
pub open spec fn merged_generic_text() -> Seq<char> {
    "✅ Merged PR."@
}

/// The persistent status shown after a successful approval of a record that
/// has left the working set.
pub open spec fn approved_generic_text() -> Seq<char> {
    "✅ Approved PR. Reloading..."@
}

/// The transient status shown after a failed approval of a record that has
/// left the working set.
pub open spec fn approve_failed_generic_text(e: Seq<char>) -> Seq<char> {
    "❌ Failed to approve PR: "@ + e
}

/// The persistent status shown while an approval is in flight.
pub open spec fn approving_text(pr: PullRequest) -> Seq<char> {
    "Approving PR "@ + pr.numslug_spec() + "..."@
}

/// The persistent status shown after a successful approval, while the
/// follow-up reload is queued.
pub open spec fn approved_text(pr: PullRequest) -> Seq<char> {
    "✅ Approved PR "@ + pr.numslug_spec() + ". Reloading..."@
}

/// The transient status shown after a failed approval.
pub open spec fn approve_failed_text(pr: PullRequest, e: Seq<char>) -> Seq<char> {
    "❌ Failed to approve PR "@ + pr.numslug_spec() + ": "@ + e
}

/// The persistent status shown while a reload is in flight.
pub open spec fn reloading_text() -> Seq<char> {
    "🔄 Reloading..."@
}

/// The transient status shown after a reload, with the new record count.
pub open spec fn reloaded_text(count: nat) -> Seq<char> {
    "✅ Reloaded. "@ + dec_rep(count) + " PRs."@
}

/// The transient status shown after a failed reload.
pub open spec fn reload_failed_text(e: Seq<char>) -> Seq<char> {
    "❌ Reload error: "@ + e
}

/// The persistent status shown while preview content is fetched.
pub open spec fn loading_text(mode: PreviewMode, number: nat) -> Seq<char> {
    "🔎 Loading "@ + mode.name_spec() + " for #"@ + dec_rep(number) + "..."@
}

/// The transient status shown after preview content arrived.
pub open spec fn loaded_text(mode: PreviewMode, number: nat) -> Seq<char> {
    "✅ Loaded "@ + mode.name_spec() + " for #"@ + dec_rep(number)
}

/// The transient status shown after a failed preview fetch.
pub open spec fn load_failed_text(e: Seq<char>) -> Seq<char> {
    "❌ Load error: "@ + e
}

/// The transient status shown after a failed contribution-calendar fetch.
pub open spec fn contrib_failed_text(e: Seq<char>) -> Seq<char> {
    "❌ Contrib load error: "@ + e
}

/// The preview mode reached by one forward step: the panel opens on the
/// body and saturates at the commit graph.
pub open spec fn mode_after_advance(m: Option<PreviewMode>) -> Option<PreviewMode> {
    match m {
        None => Some(PreviewMode::Body),
        Some(PreviewMode::Body) => Some(PreviewMode::Diff),
        Some(PreviewMode::Diff) => Some(PreviewMode::Commits),
        Some(PreviewMode::Commits) => Some(PreviewMode::Commits),
    }
}

/// The preview mode reached by one backward step: the panel closes from the
/// body.
pub open spec fn mode_after_retreat(m: Option<PreviewMode>) -> Option<PreviewMode> {
    match m {
        Some(PreviewMode::Commits) => Some(PreviewMode::Diff),
        Some(PreviewMode::Diff) => Some(PreviewMode::Body),
        Some(PreviewMode::Body) => None,
        None => None,
    }
}

/// Everything but the status line is unchanged.
pub open spec fn same_but_status(pre: Dashboard, post: Dashboard) -> bool {
    &&& post.specs == pre.specs
    &&& post.set == pre.set
    &&& post.preview_mode == pre.preview_mode
    &&& post.preview_scroll == pre.preview_scroll
    &&& post.cache == pre.cache
    &&& post.pending == pre.pending
    &&& post.should_quit == pre.should_quit
}

/// Everything but the status line and the pending task is unchanged.
pub open spec fn same_but_status_pending(pre: Dashboard, post: Dashboard) -> bool {
    &&& post.specs == pre.specs
    &&& post.set == pre.set
    &&& post.preview_mode == pre.preview_mode
    &&& post.preview_scroll == pre.preview_scroll
    &&& post.cache == pre.cache
    &&& post.should_quit == pre.should_quit
}

/// Everything but the cursor and the preview scroll is unchanged.
pub open spec fn same_but_navigation(pre: Dashboard, post: Dashboard) -> bool {
    &&& post.specs == pre.specs
    &&& post.set.items@ == pre.set.items@
    &&& post.preview_mode == pre.preview_mode
    &&& post.cache == pre.cache
    &&& post.status_message == pre.status_message
    &&& post.status_clear_at == pre.status_clear_at
    &&& post.pending == pre.pending
    &&& post.should_quit == pre.should_quit
}

/// Everything but the preview mode, scroll, status and pending task is
/// unchanged.
pub open spec fn same_but_preview(pre: Dashboard, post: Dashboard) -> bool {
    &&& post.specs == pre.specs
    &&& post.set == pre.set
    &&& post.cache == pre.cache
    &&& post.should_quit == pre.should_quit
}

impl Dashboard {
    /// The state invariant: cursor in bounds, cache well-shaped, and no
    /// expiry without a message.
    pub open spec fn wf(self) -> bool {
        &&& self.set.wf()
        &&& self.cache.wf()
        &&& (self.status_clear_at is Some ==> self.status_message is Some)
    }

    /// A fresh controller over already-fetched records: first record
    /// selected when any, preview closed, cache empty, no status, no task.
    pub fn new(specs: Vec<SlugSpec>, records: Vec<PullRequest>) -> (r: Dashboard)
        ensures
            r.wf(),
            r.specs == specs,
            r.set.items@ == records@,
            r.set.cursor == if records@.len() == 0 {
                Option::<usize>::None
            } else {
                Option::<usize>::Some(0usize)
            },
            r.preview_mode is None,
            r.preview_scroll == 0,
            r.cache.contents() == Map::<(PreviewMode, Seq<char>), Seq<char>>::empty(),
            r.status_message is None,
            r.status_clear_at is None,
            r.pending is None,
            !r.should_quit,
    {
        Dashboard {
            specs,
            set: WorkingSet::new(records),
            preview_mode: None,
            preview_scroll: 0,
            cache: PreviewCache::new(),
            status_message: None,
            status_clear_at: None,
            pending: None,
            should_quit: false,
        }
    }

    /// Sets a transient status: it expires `STATUS_LINGER_MILLIS` after
    /// `now`.
    pub fn set_status_transient(&mut self, msg: String, now: u64)
        requires
            now + STATUS_LINGER_MILLIS <= u64::MAX,
        ensures
            same_but_status(*old(self), *final (self)),
            final (self).status_message == Some(msg),
            final (self).status_clear_at == Some((now + STATUS_LINGER_MILLIS) as u64),
            old(self).wf() ==> final (self).wf(),
    {
        self.status_message = Some(msg);
        self.status_clear_at = Some(now + STATUS_LINGER_MILLIS);
    }

    /// Sets a persistent status: it stays until explicitly replaced.
    pub fn set_status_persistent(&mut self, msg: String)
        ensures
            same_but_status(*old(self), *final (self)),
            final (self).status_message == Some(msg),
            final (self).status_clear_at is None,
            old(self).wf() ==> final (self).wf(),
    {
        self.status_message = Some(msg);
        self.status_clear_at = None;
    }

    /// Clears the status line once its expiry has passed; a persistent
    /// message is never cleared here. Called once per loop iteration.
    pub fn tick_status(&mut self, now: u64)
        ensures
            same_but_status(*old(self), *final (self)),
            status_expired(old(self).status_clear_at, now) ==> final (self).status_message is None
                && final (self).status_clear_at is None,
            !status_expired(old(self).status_clear_at, now) ==> final (self).status_message == old(
                self,
            ).status_message && final (self).status_clear_at == old(self).status_clear_at,
            old(self).wf() ==> final (self).wf(),
    {
        let expired = match self.status_clear_at {
            Some(t) => now >= t,
            None => false,
        };
        if expired {
            self.status_message = None;
            self.status_clear_at = None;
        }
    }

    /// Clears the status line on request.
    pub fn dismiss_status(&mut self)
        ensures
            same_but_status(*old(self), *final (self)),
            final (self).status_message is None,
            final (self).status_clear_at is None,
            old(self).wf() ==> final (self).wf(),
    {
        self.status_message = None;
        self.status_clear_at = None;
    }

    /// Marks the loop for exit at the end of the iteration.
    pub fn quit(&mut self)
        ensures
            final (self).should_quit,
            final (self).specs == old(self).specs,
            final (self).set == old(self).set,
            final (self).preview_mode == old(self).preview_mode,
            final (self).preview_scroll == old(self).preview_scroll,
            final (self).cache == old(self).cache,
            final (self).status_message == old(self).status_message,
            final (self).status_clear_at == old(self).status_clear_at,
            final (self).pending == old(self).pending,
            old(self).wf() ==> final (self).wf(),
    {
        self.should_quit = true;
    }

    /// Moves the selection forward with wraparound and resets the preview
    /// scroll; a no-op on an empty set.
    pub fn select_next(&mut self)
        requires
            old(self).wf(),
        ensures
            final (self).wf(),
            same_but_navigation(*old(self), *final (self)),
            final (self).preview_scroll == 0,
            old(self).set.cursor is None ==> final (self).set.cursor is None,
            old(self).set.cursor matches Some(i) ==> final (self).set.cursor == Some(
                crate::workingset::next_index(i as int, old(self).set.items@.len() as int) as usize,
            ),
    {
        self.set.select_next();
        self.preview_scroll = 0;
    }

    /// Moves the selection backward with wraparound and resets the preview
    /// scroll; a no-op on an empty set.
    pub fn select_previous(&mut self)
        requires
            old(self).wf(),
        ensures
            final (self).wf(),
            same_but_navigation(*old(self), *final (self)),
            final (self).preview_scroll == 0,
            old(self).set.cursor is None ==> final (self).set.cursor is None,
            old(self).set.cursor matches Some(i) ==> final (self).set.cursor == Some(
                crate::workingset::prev_index(i as int, old(self).set.items@.len() as int) as usize,
            ),
    {
        self.set.select_previous();
        self.preview_scroll = 0;
    }

    /// Scrolls the preview down; only effective while a preview is open.
    pub fn scroll_down(&mut self, n: u16)
        requires
            old(self).wf(),
        ensures
            final (self).wf(),
            same_but_navigation(*old(self), *final (self)),
            final (self).set.cursor == old(self).set.cursor,
            old(self).preview_mode is Some ==> final (self).preview_scroll == (
            if old(self).preview_scroll + n <= u16::MAX {
                old(self).preview_scroll + n
            } else {
                u16::MAX as int
            }),
            old(self).preview_mode is None ==> final (self).preview_scroll == old(
                self,
            ).preview_scroll,
    {
        if self.preview_mode.is_some() {
            self.preview_scroll = self.preview_scroll.saturating_add(n);
        }
    }

    /// Scrolls the preview up, saturating at zero; only effective while a
    /// preview is open.
    pub fn scroll_up(&mut self, n: u16)
        requires
            old(self).wf(),
        ensures
            final (self).wf(),
            same_but_navigation(*old(self), *final (self)),
            final (self).set.cursor == old(self).set.cursor,
            old(self).preview_mode is Some ==> final (self).preview_scroll == (
            if old(self).preview_scroll >= n {
                old(self).preview_scroll - n
            } else {
                0int
            }),
            old(self).preview_mode is None ==> final (self).preview_scroll == old(
                self,
            ).preview_scroll,
    {
        if self.preview_mode.is_some() {
            self.preview_scroll = self.preview_scroll.saturating_sub(n);
        }
    }

    /// A downward input: scrolls while a preview is open, otherwise moves
    /// the selection forward.
    pub fn on_down(&mut self)
        requires
            old(self).wf(),
        ensures
            final (self).wf(),
            same_but_navigation(*old(self), *final (self)),
            old(self).preview_mode is Some ==> final (self).set.cursor == old(self).set.cursor
                && final (self).preview_scroll == (if old(self).preview_scroll + 1 <= u16::MAX {
                old(self).preview_scroll + 1
            } else {
                u16::MAX as int
            }),
            old(self).preview_mode is None ==> final (self).preview_scroll == 0 && (match old(
                self,
            ).set.cursor {
                Some(i) => final (self).set.cursor == Some(
                    crate::workingset::next_index(
                        i as int,
                        old(self).set.items@.len() as int,
                    ) as usize,
                ),
                None => final (self).set.cursor is None,
            }),
    {
        if self.preview_mode.is_some() {
            self.scroll_down(1);
        } else {
            self.select_next();
        }
    }

    /// An upward input: scrolls while a preview is open, otherwise moves
    /// the selection backward.
    pub fn on_up(&mut self)
        requires
            old(self).wf(),
        ensures
            final (self).wf(),
            same_but_navigation(*old(self), *final (self)),
            old(self).preview_mode is Some ==> final (self).set.cursor == old(self).set.cursor
                && final (self).preview_scroll == (if old(self).preview_scroll >= 1 {
                old(self).preview_scroll - 1
            } else {
                0int
            }),
            old(self).preview_mode is None ==> final (self).preview_scroll == 0 && (match old(
                self,
            ).set.cursor {
                Some(i) => final (self).set.cursor == Some(
                    crate::workingset::prev_index(
                        i as int,
                        old(self).set.items@.len() as int,
                    ) as usize,
                ),
                None => final (self).set.cursor is None,
            }),
    {
        if self.preview_mode.is_some() {
            self.scroll_up(1);
        } else {
            self.select_previous();
        }
    }
}

fn merging_status(pr: &PullRequest) -> (r: String)
    ensures
        r@ == merging_text(*pr),
{
    let mut r = "Merging PR ".to_owned();
    r.append(pr.numslug().as_str());
    r.append("...");
    proof {
        assert(r@ =~= merging_text(*pr));
    }
    r
}

fn cannot_merge_status(pr: &PullRequest) -> (r: String)
    ensures
        r@ == cannot_merge_text(*pr),
{
    let mut r = "Cannot merge PR ".to_owned();
    r.append(pr.numslug().as_str());
    r.append(": not in clean state");
    proof {
        assert(r@ =~= cannot_merge_text(*pr));
    }
    r
}

fn merged_status(pr: &PullRequest) -> (r: String)
    ensures
        r@ == merged_text(*pr),
{
    let mut r = "✅ Merged PR ".to_owned();
    r.append(pr.numslug().as_str());
    r.append(".");
    proof {
        assert(r@ =~= merged_text(*pr));
    }
    r
}

fn merge_failed_status(pr: &PullRequest, e: &String) -> (r: String)
    ensures
        r@ == merge_failed_text(*pr, e@),
{
    let mut r = "❌ Failed to merge PR ".to_owned();
    r.append(pr.numslug().as_str());
    r.append(": ");
    r.append(e.as_str());
    proof {
        assert(r@ =~= merge_failed_text(*pr, e@));
    }
    r
}

fn merge_failed_generic_status(e: &String) -> (r: String)
    ensures
        r@ == merge_failed_generic_text(e@),
{
    let mut r = "❌ Failed to merge PR: ".to_owned();
    r.append(e.as_str());
    proof {
        assert(r@ =~= merge_failed_generic_text(e@));
    }
    r
}

fn approving_status(pr: &PullRequest) -> (r: String)
    ensures
        r@ == approving_text(*pr),
{
    let mut r = "Approving PR ".to_owned();
    r.append(pr.numslug().as_str());
    r.append("...");
    proof {
        assert(r@ =~= approving_text(*pr));
    }
    r
}

fn approved_status(pr: &PullRequest) -> (r: String)
    ensures
        r@ == approved_text(*pr),
{
    let mut r = "✅ Approved PR ".to_owned();
    r.append(pr.numslug().as_str());
    r.append(". Reloading...");
    proof {
        assert(r@ =~= approved_text(*pr));
    }
    r
}

fn approve_failed_status(pr: &PullRequest, e: &String) -> (r: String)
    ensures
        r@ == approve_failed_text(*pr, e@),
{
    let mut r = "❌ Failed to approve PR ".to_owned();
    r.append(pr.numslug().as_str());
    r.append(": ");
    r.append(e.as_str());
    proof {
        assert(r@ =~= approve_failed_text(*pr, e@));
    }
    r
}

fn reloading_status() -> (r: String)
    ensures
        r@ == reloading_text(),
{
    "🔄 Reloading...".to_owned()
}

fn reloaded_status(count: usize) -> (r: String)
    ensures
        r@ == reloaded_text(count as nat),
{
    let mut r = "✅ Reloaded. ".to_owned();
    r.append(to_decimal(count as u64).as_str());
    r.append(" PRs.");
    proof {
        assert(r@ =~= reloaded_text(count as nat));
    }
    r
}

fn reload_failed_status(e: &String) -> (r: String)
    ensures
        r@ == reload_failed_text(e@),
{
    let mut r = "❌ Reload error: ".to_owned();
    r.append(e.as_str());
    proof {
        assert(r@ =~= reload_failed_text(e@));
    }
    r
}

fn loading_status(mode: PreviewMode, number: usize) -> (r: String)
    ensures
        r@ == loading_text(mode, number as nat),
{
    let mut r = "🔎 Loading ".to_owned();
    r.append(mode.name().as_str());
    r.append(" for #");
    r.append(to_decimal(number as u64).as_str());
    r.append("...");
    proof {
        assert(r@ =~= loading_text(mode, number as nat));
    }
    r
}

fn loaded_status(mode: PreviewMode, number: usize) -> (r: String)
    ensures
        r@ == loaded_text(mode, number as nat),
{
    let mut r = "✅ Loaded ".to_owned();
    r.append(mode.name().as_str());
    r.append(" for #");
    r.append(to_decimal(number as u64).as_str());
    proof {
        assert(r@ =~= loaded_text(mode, number as nat));
    }
    r
}

fn load_failed_status(e: &String) -> (r: String)
    ensures
        r@ == load_failed_text(e@),
{
    let mut r = "❌ Load error: ".to_owned();
    r.append(e.as_str());
    proof {
        assert(r@ =~= load_failed_text(e@));
    }
    r
}

fn contrib_failed_status(e: &String) -> (r: String)
    ensures
        r@ == contrib_failed_text(e@),
{
    let mut r = "❌ Contrib load error: ".to_owned();
    r.append(e.as_str());
    proof {
        assert(r@ =~= contrib_failed_text(e@));
    }
    r
}

/// The three ways a queued merge can start: refused for want of a
/// selection, refused because the record is not clean, or sent out.
enum MergeDecision {
    NoSelection,
    NotClean(String),
    Go(String, String),
}

/// Whether landing on `landed` from `was` must queue a preview fetch for
/// the state `d`: the mode changed, a record is selected, and the cache has
/// nothing for it.
pub open spec fn queue_needed(d: Dashboard, was: Option<PreviewMode>, landed: Option<
    PreviewMode,
>) -> bool {
    &&& landed is Some
    &&& was != landed
    &&& d.set.cursor is Some
    &&& !d.cache.contents().contains_key(
        (landed.unwrap(), d.set.items@[d.set.cursor.unwrap() as int].id@),
    )
}

impl Dashboard {
    /// Queues a preview fetch for `mode` and announces it, when a record is
    /// selected and the cache has nothing for it.
    fn queue_mode_if_needed(&mut self, mode: PreviewMode)
        requires
            old(self).wf(),
            old(self).pending is None,
        ensures
            final (self).wf(),
            same_but_status_pending(*old(self), *final (self)),
            (old(self).set.cursor matches Some(i) && !old(self).cache.contents().contains_key(
                (mode, old(self).set.items@[i as int].id@),
            )) ==> {
                &&& final (self).pending == Some(PendingTask::LoadPreview { mode })
                &&& final (self).status_message matches Some(m) && m@ == loading_text(
                    mode,
                    old(self).set.items@[old(self).set.cursor.unwrap() as int].number as nat,
                )
                &&& final (self).status_clear_at is None
            },
            !(old(self).set.cursor matches Some(i) && !old(self).cache.contents().contains_key(
                (mode, old(self).set.items@[i as int].id@),
            )) ==> final (self).pending is None && final (self).status_message == old(
                self,
            ).status_message && final (self).status_clear_at == old(self).status_clear_at,
    {
        let needed: Option<String> = match self.set.selected() {
            Some(pr) => {
                if !self.cache.has(mode, &pr.id) {
                    Some(loading_status(mode, pr.number))
                } else {
                    None
                }
            },
            None => None,
        };
        match needed {
            Some(msg) => {
                self.set_status_persistent(msg);
                self.pending = Some(PendingTask::LoadPreview { mode });
            },
            None => {},
        }
    }

    /// One forward step of the preview panel: opens on the body, saturates
    /// at the commit graph; resets the scroll, and queues a fetch when the
    /// newly shown mode has no cached content for the selected record.
    pub fn advance_preview(&mut self)
        requires
            old(self).wf(),
            old(self).pending is None,
        ensures
            final (self).wf(),
            same_but_preview(*old(self), *final (self)),
            final (self).preview_mode == mode_after_advance(old(self).preview_mode),
            final (self).preview_scroll == 0,
            queue_needed(
                *old(self),
                old(self).preview_mode,
                mode_after_advance(old(self).preview_mode),
            ) ==> {
                &&& final (self).pending == Some(
                    PendingTask::LoadPreview {
                        mode: mode_after_advance(old(self).preview_mode).unwrap(),
                    },
                )
                &&& final (self).status_message matches Some(m) && m@ == loading_text(
                    mode_after_advance(old(self).preview_mode).unwrap(),
                    old(self).set.items@[old(self).set.cursor.unwrap() as int].number as nat,
                )
                &&& final (self).status_clear_at is None
            },
            !queue_needed(
                *old(self),
                old(self).preview_mode,
                mode_after_advance(old(self).preview_mode),
            ) ==> final (self).pending is None && final (self).status_message == old(
                self,
            ).status_message && final (self).status_clear_at == old(self).status_clear_at,
    {
        self.preview_scroll = 0;
        match self.preview_mode {
            None => {
                self.preview_mode = Some(PreviewMode::Body);
                self.queue_mode_if_needed(PreviewMode::Body);
            },
            Some(PreviewMode::Body) => {
                self.preview_mode = Some(PreviewMode::Diff);
                self.queue_mode_if_needed(PreviewMode::Diff);
            },
            Some(PreviewMode::Diff) => {
                self.preview_mode = Some(PreviewMode::Commits);
                self.queue_mode_if_needed(PreviewMode::Commits);
            },
            Some(PreviewMode::Commits) => {},
        }
    }

    /// One backward step of the preview panel: closes from the body;
    /// resets the scroll, and queues a fetch when the newly shown mode has
    /// no cached content for the selected record.
    pub fn retreat_preview(&mut self)
        requires
            old(self).wf(),
            old(self).pending is None,
        ensures
            final (self).wf(),
            same_but_preview(*old(self), *final (self)),
            final (self).preview_mode == mode_after_retreat(old(self).preview_mode),
            final (self).preview_scroll == 0,
            queue_needed(
                *old(self),
                old(self).preview_mode,
                mode_after_retreat(old(self).preview_mode),
            ) ==> {
                &&& final (self).pending == Some(
                    PendingTask::LoadPreview {
                        mode: mode_after_retreat(old(self).preview_mode).unwrap(),
                    },
                )
                &&& final (self).status_message matches Some(m) && m@ == loading_text(
                    mode_after_retreat(old(self).preview_mode).unwrap(),
                    old(self).set.items@[old(self).set.cursor.unwrap() as int].number as nat,
                )
                &&& final (self).status_clear_at is None
            },
            !queue_needed(
                *old(self),
                old(self).preview_mode,
                mode_after_retreat(old(self).preview_mode),
            ) ==> final (self).pending is None && final (self).status_message == old(
                self,
            ).status_message && final (self).status_clear_at == old(self).status_clear_at,
    {
        self.preview_scroll = 0;
        match self.preview_mode {
            Some(PreviewMode::Commits) => {
                self.preview_mode = Some(PreviewMode::Diff);
                self.queue_mode_if_needed(PreviewMode::Diff);
            },
            Some(PreviewMode::Diff) => {
                self.preview_mode = Some(PreviewMode::Body);
                self.queue_mode_if_needed(PreviewMode::Body);
            },
            Some(PreviewMode::Body) => {
                self.preview_mode = None;
            },
            None => {},
        }
    }

    /// A merge request: queues the merge task and announces it, when a
    /// record is selected. The clean-state check happens when the task
    /// starts, before any remote call.
    pub fn on_merge_key(&mut self)
        requires
            old(self).wf(),
            old(self).pending is None,
        ensures
            final (self).wf(),
            same_but_status_pending(*old(self), *final (self)),
            (match old(self).set.cursor {
                Some(i) => {
                    &&& final (self).pending == Some(PendingTask::MergeSelected)
                    &&& final (self).status_message matches Some(m) && m@ == merging_text(
                        old(self).set.items@[i as int],
                    )
                    &&& final (self).status_clear_at is None
                },
                None => final (self).pending is None && final (self).status_message == old(
                    self,
                ).status_message && final (self).status_clear_at == old(self).status_clear_at,
            }),
    {
        let msg: Option<String> = match self.set.selected() {
            Some(pr) => Some(merging_status(pr)),
            None => None,
        };
        match msg {
            Some(m) => {
                self.set_status_persistent(m);
                self.pending = Some(PendingTask::MergeSelected);
            },
            None => {},
        }
    }

    /// An approval request: queues the approval task and announces it, when
    /// a record is selected.
    pub fn on_approve_key(&mut self)
        requires
            old(self).wf(),
            old(self).pending is None,
        ensures
            final (self).wf(),
            same_but_status_pending(*old(self), *final (self)),
            (match old(self).set.cursor {
                Some(i) => {
                    &&& final (self).pending == Some(PendingTask::ApproveSelected)
                    &&& final (self).status_message matches Some(m) && m@ == approving_text(
                        old(self).set.items@[i as int],
                    )
                    &&& final (self).status_clear_at is None
                },
                None => final (self).pending is None && final (self).status_message == old(
                    self,
                ).status_message && final (self).status_clear_at == old(self).status_clear_at,
            }),
    {
        let msg: Option<String> = match self.set.selected() {
            Some(pr) => Some(approving_status(pr)),
            None => None,
        };
        match msg {
            Some(m) => {
                self.set_status_persistent(m);
                self.pending = Some(PendingTask::ApproveSelected);
            },
            None => {},
        }
    }

    /// Takes the queued task and turns it into the remote action the caller
    /// must perform. A merge whose selected record is not in the clean
    /// merge state is refused here, with a status message and no action —
    /// no remote call is made and the working set, cache and preview are
    /// untouched. Tasks that need a selection yield no action without one.
    pub fn start_pending(&mut self, now: u64) -> (r: Option<TaskAction>)
        requires
            old(self).wf(),
            now + STATUS_LINGER_MILLIS <= u64::MAX,
        ensures
            final (self).wf(),
            final (self).pending is None,
            final (self).specs == old(self).specs,
            final (self).set == old(self).set,
            final (self).preview_mode == old(self).preview_mode,
            final (self).preview_scroll == old(self).preview_scroll,
            final (self).cache == old(self).cache,
            final (self).should_quit == old(self).should_quit,
            old(self).pending is None ==> r is None && final (self).status_message == old(
                self,
            ).status_message && final (self).status_clear_at == old(self).status_clear_at,
            old(self).pending == Some(PendingTask::MergeSelected) ==> (match old(self).set.cursor {
                Some(i) => {
                    let pr = old(self).set.items@[i as int];
                    if pr.merge_state_status == MergeStateStatus::Clean {
                        &&& r matches Some(TaskAction::Merge { id }) && id@ == pr.id@
                        &&& final (self).status_message matches Some(m) && m@ == merging_text(pr)
                        &&& final (self).status_clear_at is None
                    } else {
                        &&& r is None
                        &&& final (self).status_message matches Some(m) && m@ == cannot_merge_text(
                            pr,
                        )
                        &&& final (self).status_clear_at == Some(
                            (now + STATUS_LINGER_MILLIS) as u64,
                        )
                    }
                },
                None => r is None && final (self).status_message == old(self).status_message
                    && final (self).status_clear_at == old(self).status_clear_at,
            }),
            old(self).pending == Some(PendingTask::ApproveSelected) ==> (match old(
                self,
            ).set.cursor {
                Some(i) => {
                    let pr = old(self).set.items@[i as int];
                    &&& r matches Some(TaskAction::Approve { id }) && id@ == pr.id@
                    &&& final (self).status_message matches Some(m) && m@ == approving_text(pr)
                    &&& final (self).status_clear_at is None
                },
                None => r is None && final (self).status_message == old(self).status_message
                    && final (self).status_clear_at == old(self).status_clear_at,
            }),
            old(self).pending == Some(PendingTask::ReloadAll) ==> {
                &&& r matches Some(TaskAction::FetchAll)
                &&& final (self).status_message matches Some(m) && m@ == reloading_text()
                &&& final (self).status_clear_at is None
            },
            old(self).pending matches Some(PendingTask::ReloadSelectedRepo { owner, name }) ==> {
                &&& r matches Some(TaskAction::FetchRepo { owner: o, name: n }) && o@ == owner@
                    && n@ == name@
                &&& final (self).status_message matches Some(m) && m@ == reloading_text()
                &&& final (self).status_clear_at is None
            },
            old(self).pending == Some(PendingTask::ReloadContributions) ==> {
                &&& r matches Some(TaskAction::FetchContributions)
                &&& final (self).status_message == old(self).status_message
                &&& final (self).status_clear_at == old(self).status_clear_at
            },
            old(self).pending matches Some(PendingTask::LoadPreview { mode }) ==> (match old(
                self,
            ).set.cursor {
                Some(i) => {
                    let pr = old(self).set.items@[i as int];
                    &&& r matches Some(
                        TaskAction::FetchPreview { mode: m2, owner, name, number, id },
                    ) && m2 == mode && owner@ == pr.owner@ && name@ == pr.repo@ && number
                        == pr.number && id@ == pr.id@
                    &&& final (self).status_message matches Some(m) && m@ == loading_text(
                        mode,
                        pr.number as nat,
                    )
                    &&& final (self).status_clear_at is None
                },
                None => r is None && final (self).status_message == old(self).status_message
                    && final (self).status_clear_at == old(self).status_clear_at,
            }),
    {
        let mut task: Option<PendingTask> = None;
        core::mem::swap(&mut self.pending, &mut task);
        match task {
            None => None,
            Some(PendingTask::MergeSelected) => {
                let decision = match self.set.selected() {
                    Some(pr) => {
                        if pr.merge_state_status == MergeStateStatus::Clean {
                            MergeDecision::Go(merging_status(pr), pr.id.clone())
                        } else {
                            MergeDecision::NotClean(cannot_merge_status(pr))
                        }
                    },
                    None => MergeDecision::NoSelection,
                };
                match decision {
                    MergeDecision::NoSelection => None,
                    MergeDecision::NotClean(msg) => {
                        self.set_status_transient(msg, now);
                        None
                    },
                    MergeDecision::Go(msg, id) => {
                        self.set_status_persistent(msg);
                        Some(TaskAction::Merge { id })
                    },
                }
            },
            Some(PendingTask::ApproveSelected) => {
                let prep: Option<(String, String)> = match self.set.selected() {
                    Some(pr) => Some((approving_status(pr), pr.id.clone())),
                    None => None,
                };
                match prep {
                    Some((msg, id)) => {
                        self.set_status_persistent(msg);
                        Some(TaskAction::Approve { id })
                    },
                    None => None,
                }
            },
            Some(PendingTask::ReloadAll) => {
                self.set_status_persistent(reloading_status());
                Some(TaskAction::FetchAll)
            },
            Some(PendingTask::ReloadSelectedRepo { owner, name }) => {
                self.set_status_persistent(reloading_status());
                Some(TaskAction::FetchRepo { owner, name })
            },
            Some(PendingTask::ReloadContributions) => Some(TaskAction::FetchContributions),
            Some(PendingTask::LoadPreview { mode }) => {
                let prep: Option<(String, String, String, usize, String)> = match self
                    .set
                    .selected() {
                    Some(pr) => Some(
                        (
                            loading_status(mode, pr.number),
                            pr.owner.clone(),
                            pr.repo.clone(),
                            pr.number,
                            pr.id.clone(),
                        ),
                    ),
                    None => None,
                };
                match prep {
                    Some((msg, owner, name, number, id)) => {
                        self.set_status_persistent(msg);
                        Some(TaskAction::FetchPreview { mode, owner, name, number, id })
                    },
                    None => None,
                }
            },
        }
    }

    /// Applies the outcome of a merge call for the record with id `id`. On
    /// success the record leaves the working set (the cursor clamped to the
    /// new bounds), its cached previews are dropped in every mode, and a
    /// contribution reload is queued; on failure only the status line
    /// changes.
    pub fn complete_merge(&mut self, id: &String, outcome: Result<(), String>, now: u64)
        requires
            old(self).wf(),
            now + STATUS_LINGER_MILLIS <= u64::MAX,
        ensures
            final (self).wf(),
            final (self).specs == old(self).specs,
            final (self).preview_mode == old(self).preview_mode,
            final (self).preview_scroll == old(self).preview_scroll,
            final (self).should_quit == old(self).should_quit,
            final (self).status_clear_at == Some((now + STATUS_LINGER_MILLIS) as u64),
            outcome matches Err(e) ==> {
                &&& final (self).set == old(self).set
                &&& final (self).cache == old(self).cache
                &&& final (self).pending == old(self).pending
                &&& final (self).status_message matches Some(m) && m@ == (
                if find_id(old(self).set.items@, id@) < old(self).set.items@.len() {
                    merge_failed_text(
                        old(self).set.items@[find_id(old(self).set.items@, id@)],
                        e@,
                    )
                } else {
                    merge_failed_generic_text(e@)
                })
            },
            outcome is Ok ==> {
                &&& final (self).set.items@ == without_id(old(self).set.items@, id@)
                &&& forall|j: int|
                    0 <= j < final (self).set.items@.len() ==> (#[trigger] final (self).set.items@[j]).id@ != id@
                &&& final (self).cache.contents() == old(self).cache.contents().restrict(
                    Set::new(|k: (PreviewMode, Seq<char>)| k.1 != id@),
                )
                &&& forall|m: PreviewMode|
                    !final (self).cache.contents().contains_key((m, id@))
                &&& final (self).pending == Some(PendingTask::ReloadContributions)
                &&& final (self).status_message matches Some(m) && m@ == (
                if find_id(old(self).set.items@, id@) < old(self).set.items@.len() {
                    merged_text(old(self).set.items@[find_id(old(self).set.items@, id@)])
                } else {
                    merged_generic_text()
                })
            },
    {
        let f = self.set.position_of_id(id);
        match outcome {
            Err(e) => {
                let msg = if f < self.set.items.len() {
                    merge_failed_status(&self.set.items[f], &e)
                } else {
                    merge_failed_generic_status(&e)
                };
                self.set_status_transient(msg, now);
            },
            Ok(_) => {
                let msg = if f < self.set.items.len() {
                    merged_status(&self.set.items[f])
                } else {
                    "✅ Merged PR.".to_owned()
                };
                self.set_status_transient(msg, now);
                self.set.remove_by_id(id);
                self.cache.drop_id(id);
                self.pending = Some(PendingTask::ReloadContributions);
                proof {
                    lemma_without_id_absent(old(self).set.items@, id@);
                    assert forall|m: PreviewMode|
                        !self.cache.contents().contains_key((m, id@)) by {
                        if self.cache.contents().contains_key((m, id@)) {
                            assert(Set::new(|k: (PreviewMode, Seq<char>)| k.1 != id@).contains(
                                (m, id@),
                            ));
                        }
                    }
                }
            },
        }
    }

    /// Applies the outcome of an approval call for the record with id `id`.
    /// The record stays; on success a reload of its repository is queued so
    /// the review decision reflects the remote state (a full reload when the
    /// record has left the set meanwhile); on failure only the status line
    /// changes.
    pub fn complete_approve(&mut self, id: &String, outcome: Result<(), String>, now: u64)
        requires
            old(self).wf(),
            now + STATUS_LINGER_MILLIS <= u64::MAX,
        ensures
            final (self).wf(),
            final (self).specs == old(self).specs,
            final (self).set == old(self).set,
            final (self).cache == old(self).cache,
            final (self).preview_mode == old(self).preview_mode,
            final (self).preview_scroll == old(self).preview_scroll,
            final (self).should_quit == old(self).should_quit,
            outcome matches Err(e) ==> {
                &&& final (self).pending == old(self).pending
                &&& final (self).status_message matches Some(m) && m@ == (
                if find_id(old(self).set.items@, id@) < old(self).set.items@.len() {
                    approve_failed_text(
                        old(self).set.items@[find_id(old(self).set.items@, id@)],
                        e@,
                    )
                } else {
                    approve_failed_generic_text(e@)
                })
                &&& final (self).status_clear_at == Some((now + STATUS_LINGER_MILLIS) as u64)
            },
            outcome is Ok ==> {
                &&& final (self).status_clear_at is None
                &&& (if find_id(old(self).set.items@, id@) < old(self).set.items@.len() {
                    let pr = old(self).set.items@[find_id(old(self).set.items@, id@)];
                    &&& final (self).pending matches Some(
                        PendingTask::ReloadSelectedRepo { owner, name },
                    ) && owner@ == pr.owner@ && name@ == pr.repo@
                    &&& final (self).status_message matches Some(m) && m@ == approved_text(pr)
                } else {
                    &&& final (self).pending == Some(PendingTask::ReloadAll)
                    &&& final (self).status_message matches Some(m) && m@
                        == approved_generic_text()
                })
            },
    {
        let f = self.set.position_of_id(id);
        match outcome {
            Err(e) => {
                let msg = if f < self.set.items.len() {
                    approve_failed_status(&self.set.items[f], &e)
                } else {
                    let mut r = "❌ Failed to approve PR: ".to_owned();
                    r.append(e.as_str());
                    proof {
                        assert(r@ =~= approve_failed_generic_text(e@));
                    }
                    r
                };
                self.set_status_transient(msg, now);
            },
            Ok(_) => {
                if f < self.set.items.len() {
                    let msg = approved_status(&self.set.items[f]);
                    let owner = self.set.items[f].owner.clone();
                    let name = self.set.items[f].repo.clone();
                    self.set_status_persistent(msg);
                    self.pending = Some(PendingTask::ReloadSelectedRepo { owner, name });
                } else {
                    self.set_status_persistent("✅ Approved PR. Reloading...".to_owned());
                    self.pending = Some(PendingTask::ReloadAll);
                }
            },
        }
    }

    /// Applies the outcome of a full reload: the working set is replaced
    /// with the cursor's position preserved (clamped), stale cache entries
    /// are pruned, a contribution reload is queued, and — when the open
    /// preview mode has no content for the now-selected record — the fetch
    /// for it is returned for the caller to perform. On failure only the
    /// status line changes.
    pub fn complete_reload_all(
        &mut self,
        outcome: Result<Vec<PullRequest>, String>,
        now: u64,
    ) -> (r: Option<TaskAction>)
        requires
            old(self).wf(),
            now + STATUS_LINGER_MILLIS <= u64::MAX,
        ensures
            final (self).wf(),
            final (self).specs == old(self).specs,
            final (self).preview_mode == old(self).preview_mode,
            final (self).preview_scroll == old(self).preview_scroll,
            final (self).should_quit == old(self).should_quit,
            final (self).status_clear_at == Some((now + STATUS_LINGER_MILLIS) as u64),
            outcome matches Err(e) ==> {
                &&& final (self).set == old(self).set
                &&& final (self).cache == old(self).cache
                &&& final (self).pending == old(self).pending
                &&& final (self).status_message matches Some(m) && m@ == reload_failed_text(e@)
                &&& r is None
            },
            outcome matches Ok(list) ==> {
                &&& final (self).set.items@ == list@
                &&& final (self).set.cursor == (if list@.len() == 0 {
                    Option::<usize>::None
                } else {
                    Some(
                        (if old(self).set.cursor.unwrap_or(0) as int <= list@.len() - 1 {
                            old(self).set.cursor.unwrap_or(0) as int
                        } else {
                            list@.len() - 1
                        }) as usize,
                    )
                })
                &&& final (self).cache.contents() == old(self).cache.contents().restrict(
                    Set::new(|k: (PreviewMode, Seq<char>)| ids_view(list@).contains(k.1)),
                )
                &&& final (self).pending == Some(PendingTask::ReloadContributions)
                &&& final (self).status_message matches Some(m) && m@ == reloaded_text(
                    list@.len(),
                )
                &&& (match (final (self).preview_mode, final (self).set.cursor) {
                    (Some(pm), Some(j)) => {
                        let pr = final (self).set.items@[j as int];
                        if !final (self).cache.contents().contains_key((pm, pr.id@)) {
                            r matches Some(
                                TaskAction::FetchPreview { mode, owner, name, number, id },
                            ) && mode == pm && owner@ == pr.owner@ && name@ == pr.repo@
                                && number == pr.number && id@ == pr.id@
                        } else {
                            r is None
                        }
                    },
                    _ => r is None,
                })
            },
    {
        match outcome {
            Err(e) => {
                let msg = reload_failed_status(&e);
                self.set_status_transient(msg, now);
                None
            },
            Ok(list) => {
                self.set.replace_all(list);
                let ids = self.set.ids();
                self.cache.prune(&ids);
                let msg = reloaded_status(self.set.items.len());
                self.set_status_transient(msg, now);
                self.pending = Some(PendingTask::ReloadContributions);
                let refetch: Option<TaskAction> = match self.preview_mode {
                    Some(pm) => match self.set.selected() {
                        Some(pr) => {
                            if !self.cache.has(pm, &pr.id) {
                                Some(
                                    TaskAction::FetchPreview {
                                        mode: pm,
                                        owner: pr.owner.clone(),
                                        name: pr.repo.clone(),
                                        number: pr.number,
                                        id: pr.id.clone(),
                                    },
                                )
                            } else {
                                None
                            }
                        },
                        None => None,
                    },
                    None => None,
                };
                refetch
            },
        }
    }

    /// Applies the outcome of a reload scoped to one repository: its old
    /// records are replaced in place by the fresh ones, stale cache entries
    /// are pruned, the scroll resets, and the selection follows the
    /// previously selected record's id when that id survived, falling back
    /// to the splice position otherwise. On failure only the status line
    /// changes.
    pub fn complete_scoped_reload(
        &mut self,
        owner: &String,
        name: &String,
        outcome: Result<Vec<PullRequest>, String>,
        now: u64,
    )
        requires
            old(self).wf(),
            now + STATUS_LINGER_MILLIS <= u64::MAX,
        ensures
            final (self).wf(),
            final (self).specs == old(self).specs,
            final (self).preview_mode == old(self).preview_mode,
            final (self).pending == old(self).pending,
            final (self).should_quit == old(self).should_quit,
            final (self).status_clear_at == Some((now + STATUS_LINGER_MILLIS) as u64),
            outcome matches Err(e) ==> {
                &&& final (self).set == old(self).set
                &&& final (self).cache == old(self).cache
                &&& final (self).preview_scroll == old(self).preview_scroll
                &&& final (self).status_message matches Some(m) && m@ == reload_failed_text(e@)
            },
            outcome matches Ok(fresh) ==> {
                &&& final (self).set.items@ == spliced(old(self).set.items@, fresh@, owner@, name@)
                &&& (match old(self).set.cursor {
                    Some(i) => {
                        let tid = old(self).set.items@[i as int].id@;
                        let f = find_id(final (self).set.items@, tid);
                        if f < final (self).set.items@.len() {
                            final (self).set.cursor == Some(f as usize)
                        } else {
                            final (self).set.cursor == fallback_cursor(
                                final (self).set.items@.len() as int,
                                crate::workingset::find_repo(old(self).set.items@, owner@, name@),
                            )
                        }
                    },
                    None => final (self).set.cursor == fallback_cursor(
                        final (self).set.items@.len() as int,
                        crate::workingset::find_repo(old(self).set.items@, owner@, name@),
                    ),
                })
                &&& final (self).cache.contents() == old(self).cache.contents().restrict(
                    Set::new(
                        |k: (PreviewMode, Seq<char>)|
                            ids_view(final (self).set.items@).contains(k.1),
                    ),
                )
                &&& final (self).preview_scroll == 0
                &&& final (self).status_message matches Some(m) && m@ == reloaded_text(
                    final (self).set.items@.len(),
                )
            },
    {
        match outcome {
            Err(e) => {
                let msg = reload_failed_status(&e);
                self.set_status_transient(msg, now);
            },
            Ok(fresh) => {
                self.set.splice_repo(owner, name, fresh);
                let ids = self.set.ids();
                self.cache.prune(&ids);
                self.preview_scroll = 0;
                let msg = reloaded_status(self.set.items.len());
                self.set_status_transient(msg, now);
            },
        }
    }

    /// Applies the outcome of a preview fetch: the content is cached for
    /// `(mode, id)` when the record is still in the working set and
    /// discarded otherwise; a failure becomes a transient status message.
    pub fn complete_preview_load(
        &mut self,
        mode: PreviewMode,
        id: &String,
        outcome: Result<String, String>,
        now: u64,
    )
        requires
            old(self).wf(),
            now + STATUS_LINGER_MILLIS <= u64::MAX,
        ensures
            final (self).wf(),
            final (self).specs == old(self).specs,
            final (self).set == old(self).set,
            final (self).preview_mode == old(self).preview_mode,
            final (self).preview_scroll == old(self).preview_scroll,
            final (self).pending == old(self).pending,
            final (self).should_quit == old(self).should_quit,
            outcome matches Err(e) ==> {
                &&& final (self).cache == old(self).cache
                &&& final (self).status_message matches Some(m) && m@ == load_failed_text(e@)
                &&& final (self).status_clear_at == Some((now + STATUS_LINGER_MILLIS) as u64)
            },
            outcome matches Ok(content) ==> (
            if find_id(old(self).set.items@, id@) < old(self).set.items@.len() {
                &&& final (self).cache.contents() == old(self).cache.contents().insert(
                    (mode, id@),
                    content@,
                )
                &&& final (self).status_message matches Some(m) && m@ == loaded_text(
                    mode,
                    old(self).set.items@[find_id(old(self).set.items@, id@)].number as nat,
                )
                &&& final (self).status_clear_at == Some((now + STATUS_LINGER_MILLIS) as u64)
            } else {
                &&& final (self).cache == old(self).cache
                &&& final (self).status_message == old(self).status_message
                &&& final (self).status_clear_at == old(self).status_clear_at
            }),
    {
        match outcome {
            Err(e) => {
                let msg = load_failed_status(&e);
                self.set_status_transient(msg, now);
            },
            Ok(content) => {
                let f = self.set.position_of_id(id);
                if f < self.set.items.len() {
                    let number = self.set.items[f].number;
                    self.cache.put(mode, id.clone(), content);
                    let msg = loaded_status(mode, number);
                    self.set_status_transient(msg, now);
                }
            },
        }
    }

    /// Applies the outcome of a contribution-calendar fetch: only a failure
    /// is reflected here, as a transient status message; the fetched data
    /// itself lives with the caller's render layer.
    pub fn complete_contributions(&mut self, outcome: Result<(), String>, now: u64)
        requires
            old(self).wf(),
            now + STATUS_LINGER_MILLIS <= u64::MAX,
        ensures
            final (self).wf(),
            same_but_status(*old(self), *final (self)),
            outcome matches Err(e) ==> final (self).status_message matches Some(m) && m@
                == contrib_failed_text(e@) && final (self).status_clear_at == Some(
                (now + STATUS_LINGER_MILLIS) as u64,
            ),
            outcome is Ok ==> final (self).status_message == old(self).status_message && final (self).status_clear_at == old(self).status_clear_at,
    {
        match outcome {
            Err(e) => {
                let msg = contrib_failed_status(&e);
                self.set_status_transient(msg, now);
            },
            Ok(_) => {},
        }
    }

    /// A reload request: queues the full reload and announces it.
    pub fn on_reload_key(&mut self)
        requires
            old(self).wf(),
            old(self).pending is None,
        ensures
            final (self).wf(),
            same_but_status_pending(*old(self), *final (self)),
            final (self).pending == Some(PendingTask::ReloadAll),
            final (self).status_message matches Some(m) && m@ == reloading_text(),
            final (self).status_clear_at is None,
    {
        self.set_status_persistent(reloading_status());
        self.pending = Some(PendingTask::ReloadAll);
    }
}

/// The text shown in the preview panel: a placeholder without a selection
/// or with the panel closed, the cached content when present, and a loading
/// note while it is fetched.
pub open spec fn preview_text_spec(d: Dashboard) -> Seq<char> {
    match d.set.cursor {
        None => "No selection"@,
        Some(i) => match d.preview_mode {
            None => "Preview closed"@,
            Some(m) => {
                if d.cache.contents().contains_key((m, d.set.items@[i as int].id@)) {
                    d.cache.contents()[(m, d.set.items@[i as int].id@)]
                } else {
                    "Loading..."@ + m.name_spec()
                }
            },
        },
    }
}

/// The help line: the status message when one is shown, otherwise the key
/// bindings with the navigation hint and the open mode.
pub open spec fn help_text_spec(d: Dashboard) -> Seq<char> {
    match d.status_message {
        Some(m) => m@,
        None => {
            let base =
                "q:quit • ?:help • Enter/o:open • m:merge • a:approve • r:reload • ←/→:list/body/diff/graph"@;
            match d.preview_mode {
                None => base + " • "@ + "↑/↓:navigate"@,
                Some(m) => base + " • "@ + "↑/↓/wheel:scroll"@ + " • mode:"@ + m.name_spec(),
            }
        },
    }
}

/// The preview panel's title: number, slug and mode of the selected record,
/// with the record's title appended, shortened, when the panel is wide
/// enough (four columns are reserved for borders and padding).
pub open spec fn preview_title_spec(d: Dashboard, width: u16) -> Seq<char> {
    match (d.set.cursor, d.preview_mode) {
        (Some(i), Some(m)) => {
            let pr = d.set.items@[i as int];
            let base = "#"@ + dec_rep(pr.number as nat) + " "@ + pr.slug_spec() + " • "@
                + m.name_spec();
            let w: int = if width >= 4 {
                width - 4
            } else {
                0
            };
            if w > base.len() + 3 {
                base + " • "@ + crate::styling::ellipsized(pr.title@, (w - base.len() - 3) as nat)
            } else {
                base
            }
        },
        _ => "Preview"@,
    }
}

/// The text of the body preview: title, address and body text.
pub open spec fn body_preview_text(title: Seq<char>, url: Seq<char>, body: Seq<char>) -> Seq<
    char,
> {
    title + "\n"@ + url + "\n\n"@ + body
}

/// Renders the body preview for a record's title, address and body text.
pub fn body_preview_string(title: &str, url: &str, body: &str) -> (r: String)
    ensures
        r@ == body_preview_text(title@, url@, body@),
{
    let mut r = title.to_owned();
    r.append("\n");
    r.append(url);
    r.append("\n\n");
    r.append(body);
    proof {
        assert(r@ =~= body_preview_text(title@, url@, body@));
    }
    r
}

impl Dashboard {
    /// The text shown in the preview panel for the current state.
    pub fn preview_text(&self) -> (r: String)
        requires
            self.wf(),
        ensures
            r@ == preview_text_spec(*self),
    {
        match self.set.selected() {
            None => "No selection".to_owned(),
            Some(pr) => match self.preview_mode {
                None => "Preview closed".to_owned(),
                Some(m) => match self.cache.get(m, &pr.id) {
                    Some(content) => content.clone(),
                    None => {
                        let mut r = "Loading...".to_owned();
                        r.append(m.name().as_str());
                        r
                    },
                },
            },
        }
    }

    /// The help line for the current state.
    pub fn help_text(&self) -> (r: String)
        ensures
            r@ == help_text_spec(*self),
    {
        match &self.status_message {
            Some(m) => m.clone(),
            None => {
                let mut r =
                    "q:quit • ?:help • Enter/o:open • m:merge • a:approve • r:reload • ←/→:list/body/diff/graph".to_owned();
                r.append(" • ");
                match self.preview_mode {
                    None => {
                        r.append("↑/↓:navigate");
                    },
                    Some(m) => {
                        r.append("↑/↓/wheel:scroll");
                        r.append(" • mode:");
                        r.append(m.name().as_str());
                    },
                }
                r
            },
        }
    }

    /// The preview panel's title for the current state and panel width.
    pub fn preview_title(&self, width: u16) -> (r: String)
        requires
            self.wf(),
        ensures
            r@ == preview_title_spec(*self, width),
    {
        let prep: Option<(String, String)> = match (self.set.selected(), self.preview_mode) {
            (Some(pr), Some(m)) => {
                let mut base = "#".to_owned();
                base.append(to_decimal(pr.number as u64).as_str());
                base.append(" ");
                base.append(pr.slug().as_str());
                base.append(" • ");
                base.append(m.name().as_str());
                Some((base, pr.title.clone()))
            },
            _ => None,
        };
        match prep {
            None => "Preview".to_owned(),
            Some((base, title)) => {
                let w: usize = if width >= 4 {
                    (width - 4) as usize
                } else {
                    0
                };
                let base_len = base.as_str().unicode_len();
                if w > 3 && w - 3 > base_len {
                    let short = crate::styling::ellipsize(title.as_str(), w - base_len - 3);
                    let mut r = base;
                    r.append(" • ");
                    r.append(short.as_str());
                    proof {
                        assert(r@ =~= preview_title_spec(*self, width));
                    }
                    r
                } else {
                    base
                }
            },
        }
    }
}

} // verus!
