//! The commit-graph builder: turns a commit history (newest first) into
//! display rows, each carrying an ASCII branch-lane prefix.
//!
//! The layout keeps an ordered list of open lanes, one per unresolved branch
//! of history. Each commit moves (or opens) its lane at the front, is drawn
//! as `* ` beside one `| ` rail per other open lane, and is then replaced by
//! its parents; lanes that converged on the same parent collapse. The layout
//! is a display approximation, not a minimal or planar one: ties are broken
//! by parent order as the history reports it.

use vstd::prelude::*;

use crate::commits::{summary_of, Commit, CommitGraphEntry};

verus! {

/// The views of a list of strings.
pub open spec fn lanes_view(v: Seq<String>) -> Seq<Seq<char>> {
    v.map_values(|s: String| s@)
}

/// The parent hashes of a commit, as character sequences.
pub open spec fn parents_view(c: Commit) -> Seq<Seq<char>> {
    lanes_view(c.parents@)
}

/// Index of the first lane holding `sha`, or `lanes.len()` when no lane does.
pub open spec fn find_lane(lanes: Seq<Seq<char>>, sha: Seq<char>) -> int
    decreases lanes.len(),
{
    if lanes.len() == 0 {
        0
    } else if lanes[0] == sha {
        0
    } else {
        1 + find_lane(lanes.drop_first(), sha)
    }
}

pub proof fn lemma_find_lane_bounds(lanes: Seq<Seq<char>>, sha: Seq<char>)
    ensures
        0 <= find_lane(lanes, sha) <= lanes.len(),
        forall|j: int| 0 <= j < find_lane(lanes, sha) ==> lanes[j] != sha,
        find_lane(lanes, sha) < lanes.len() ==> lanes[find_lane(lanes, sha)] == sha,
    decreases lanes.len(),
{
    if lanes.len() > 0 && lanes[0] != sha {
        lemma_find_lane_bounds(lanes.drop_first(), sha);
        assert forall|j: int| 0 <= j < find_lane(lanes, sha) implies lanes[j] != sha by {
            if j > 0 {
                assert(lanes[j] == lanes.drop_first()[j - 1]);
            }
        }
        if find_lane(lanes, sha) < lanes.len() {
            assert(lanes[find_lane(lanes, sha)] == lanes.drop_first()[find_lane(
                lanes.drop_first(),
                sha,
            )]);
        }
    }
}

proof fn lemma_lane_scan(lanes: Seq<Seq<char>>, sha: Seq<char>, i: int)
    requires
        0 <= i <= lanes.len(),
        forall|j: int| 0 <= j < i ==> lanes[j] != sha,
        i < lanes.len() ==> lanes[i] == sha,
    ensures
        find_lane(lanes, sha) == i,
    decreases lanes.len(),
{
    if lanes.len() > 0 && lanes[0] != sha {
        assert(forall|j: int|
            0 <= j < i - 1 ==> lanes.drop_first()[j] == lanes[j + 1] && lanes[j + 1] != sha);
        lemma_lane_scan(lanes.drop_first(), sha, i - 1);
    }
}

/// Brings the lane holding `sha` to the front, opening a new front lane when
/// none holds it.
pub open spec fn move_to_front(lanes: Seq<Seq<char>>, sha: Seq<char>) -> Seq<Seq<char>> {
    let k = find_lane(lanes, sha);
    if k == lanes.len() {
        seq![sha] + lanes
    } else {
        seq![sha] + lanes.remove(k)
    }
}

/// Places one parent at target lane `idx` (clamped to the lane count),
/// reusing the parent's open lane when it has one.
pub open spec fn place_parent(lanes: Seq<Seq<char>>, idx: int, sha: Seq<char>) -> Seq<Seq<char>> {
    let k = find_lane(lanes, sha);
    if k == lanes.len() {
        lanes.insert(vstd::math::min(idx, lanes.len() as int), sha)
    } else {
        let shorter = lanes.remove(k);
        shorter.insert(vstd::math::min(idx, shorter.len() as int), sha)
    }
}

/// Places the parents numbered `i` and up, parent number `j` at target lane
/// `j`.
pub open spec fn place_parents(lanes: Seq<Seq<char>>, parents: Seq<Seq<char>>, i: int) -> Seq<
    Seq<char>,
>
    decreases parents.len() - i,
{
    if i < 0 || i >= parents.len() {
        lanes
    } else {
        place_parents(place_parent(lanes, i, parents[i]), parents, i + 1)
    }
}

/// Collapses duplicate lanes, keeping the first occurrence of each hash.
pub open spec fn dedup_lanes(lanes: Seq<Seq<char>>) -> Seq<Seq<char>>
    decreases lanes.len(),
{
    if lanes.len() == 0 {
        lanes
    } else if lanes.drop_last().contains(lanes.last()) {
        dedup_lanes(lanes.drop_last())
    } else {
        dedup_lanes(lanes.drop_last()).push(lanes.last())
    }
}

/// The open lanes after one commit is processed: the commit's lane comes to
/// the front, is consumed, its parents are placed, and converged lanes
/// collapse.
pub open spec fn lanes_after_commit(lanes: Seq<Seq<char>>, c: Commit) -> Seq<Seq<char>> {
    dedup_lanes(place_parents(move_to_front(lanes, c.sha@).drop_first(), parents_view(c), 0))
}

/// The open lanes after the first `i` commits of a history (newest first).
pub open spec fn active_after(commits: Seq<Commit>, i: int) -> Seq<Seq<char>>
    decreases i,
{
    if i <= 0 {
        Seq::empty()
    } else {
        lanes_after_commit(active_after(commits, i - 1), commits[i - 1])
    }
}

/// The lane count drawn for commit `i`: the open lanes at that point with
/// the commit's own lane brought to the front.
pub open spec fn lanes_at(commits: Seq<Commit>, i: int) -> nat {
    move_to_front(active_after(commits, i), commits[i].sha@).len()
}

/// `count` rail markers `| `.
pub open spec fn rails(count: nat) -> Seq<char>
    decreases count,
{
    if count == 0 {
        Seq::empty()
    } else {
        rails((count - 1) as nat) + seq!['|', ' ']
    }
}

/// The graph prefix for a row with `lanes` open lanes: `* ` for the front
/// lane, one `| ` per other lane.
pub open spec fn lane_prefix(lanes: nat) -> Seq<char> {
    if lanes == 0 {
        Seq::empty()
    } else {
        seq!['*', ' '] + rails((lanes - 1) as nat)
    }
}

/// The shortened hash shown in a row: at most the first seven characters.
pub open spec fn short_sha_of(sha: Seq<char>) -> Seq<char> {
    if sha.len() <= 7 {
        sha
    } else {
        sha.take(7)
    }
}

/// View of an optional string.
pub open spec fn opt_str_view(o: Option<String>) -> Option<Seq<char>> {
    match o {
        Some(s) => Some(s@),
        None => None,
    }
}

/// Whether row `e` is the one drawn for commit `c` with `lanes` open lanes.
pub open spec fn entry_matches(e: CommitGraphEntry, c: Commit, lanes: nat) -> bool {
    &&& e.graph@ == lane_prefix(lanes)
    &&& e.short_sha@ == short_sha_of(c.sha@)
    &&& e.summary@ == summary_of(c.message@)
    &&& opt_str_view(e.author) == c.display_author_spec()
    &&& opt_str_view(e.date) == c.display_date_spec()
}

/// Index of the first entry of `active` equal to `sha`, or the length.
fn lane_position(active: &Vec<String>, sha: &String) -> (r: usize)
    ensures
        r == find_lane(lanes_view(active@), sha@),
{
    let mut j: usize = 0;
    while j < active.len()
        invariant
            j <= active@.len(),
            forall|i: int| 0 <= i < j ==> lanes_view(active@)[i] != sha@,
        decreases active@.len() - j,
    {
        if sha.eq(&active[j]) {
            proof {
                lemma_lane_scan(lanes_view(active@), sha@, j as int);
            }
            return j;
        }
        j += 1;
    }
    proof {
        lemma_lane_scan(lanes_view(active@), sha@, j as int);
    }
    j
}

/// Brings the lane holding `sha` to the front, opening it when absent.
fn move_lane_to_front(active: &mut Vec<String>, sha: &String)
    ensures
        lanes_view(final (active)@) == move_to_front(lanes_view(old(active)@), sha@),
{
    let k = lane_position(active, sha);
    proof {
        lemma_find_lane_bounds(lanes_view(active@), sha@);
    }
    if k < active.len() {
        let s = active.remove(k);
        active.insert(0, s);
        proof {
            assert(lanes_view(active@) =~= seq![sha@] + lanes_view(old(active)@).remove(k as int));
        }
    } else {
        active.insert(0, sha.clone());
        proof {
            assert(lanes_view(active@) =~= seq![sha@] + lanes_view(old(active)@));
        }
    }
}

/// Places one parent hash at target lane `idx`, clamped to the lane count.
fn place_parent_at(active: &mut Vec<String>, idx: usize, sha: &String)
    ensures
        lanes_view(final (active)@) == place_parent(lanes_view(old(active)@), idx as int, sha@),
{
    let k = lane_position(active, sha);
    proof {
        lemma_find_lane_bounds(lanes_view(active@), sha@);
    }
    if k < active.len() {
        let s = active.remove(k);
        let t: usize = if idx <= active.len() {
            idx
        } else {
            active.len()
        };
        active.insert(t, s);
        proof {
            assert(lanes_view(active@) =~= place_parent(
                lanes_view(old(active)@),
                idx as int,
                sha@,
            ));
        }
    } else {
        let t: usize = if idx <= active.len() {
            idx
        } else {
            active.len()
        };
        active.insert(t, sha.clone());
        proof {
            assert(lanes_view(active@) =~= place_parent(
                lanes_view(old(active)@),
                idx as int,
                sha@,
            ));
        }
    }
}

/// Collapses duplicate lanes in place, keeping first occurrences.
pub fn dedup_branches(branches: &mut Vec<String>)
    ensures
        lanes_view(final (branches)@) == dedup_lanes(lanes_view(old(branches)@)),
{
    let ghost all: Seq<Seq<char>> = lanes_view(branches@);
    let mut out: Vec<String> = Vec::new();
    let mut i: usize = 0;
    while i < branches.len()
        invariant
            i <= branches@.len(),
            all == lanes_view(branches@),
            lanes_view(out@) == dedup_lanes(all.take(i as int)),
        decreases branches@.len() - i,
    {
        let mut seen = false;
        let mut j: usize = 0;
        while j < i
            invariant
                j <= i,
                i < branches@.len(),
                all == lanes_view(branches@),
                seen == exists|k: int| 0 <= k < j && all[k] == all[i as int],
            decreases i - j,
        {
            let same = branches[j].eq(&branches[i]);
            proof {
                assert(all[j as int] == branches@[j as int]@);
                assert(all[i as int] == branches@[i as int]@);
                if same {
                    assert(0 <= (j as int) < j + 1 && all[j as int] == all[i as int]);
                } else {
                    if exists|k: int| 0 <= k < j + 1 && all[k] == all[i as int] {
                        let k = choose|k: int| 0 <= k < j + 1 && all[k] == all[i as int];
                        assert(k < j);
                    }
                }
            }
            if same {
                seen = true;
            }
            j += 1;
        }
        proof {
            assert(all.take(i + 1).drop_last() =~= all.take(i as int));
            assert(all.take(i + 1).last() == all[i as int]);
            assert(seen == all.take(i as int).contains(all[i as int])) by {
                if seen {
                    let k = choose|k: int| 0 <= k < i && all[k] == all[i as int];
                    assert(all.take(i as int)[k] == all[i as int]);
                }
                if all.take(i as int).contains(all[i as int]) {
                    let k = choose|k: int|
                        0 <= k < all.take(i as int).len() && all.take(i as int)[k] == all[
                            i as int
                        ];
                    assert(all[k] == all[i as int]);
                }
            }
        }
        if !seen {
            let s = branches[i].clone();
            out.push(s);
            proof {
                assert(lanes_view(out@) =~= dedup_lanes(all.take(i + 1)));
            }
        }
        i += 1;
    }
    proof {
        assert(all.take(branches@.len() as int) =~= all);
    }
    *branches = out;
}

/// Renders the branch-lane prefix for the current open lanes.
pub fn build_graph_prefix(active: &Vec<String>) -> (r: String)
    ensures
        r@ == lane_prefix(active@.len() as nat),
{
    let mut r = String::new();
    if active.len() == 0 {
        return r;
    }
    r.append("* ");
    proof {
        reveal_strlit("* ");
        assert(r@ =~= seq!['*', ' '] + rails(0));
    }
    let mut i: usize = 1;
    while i < active.len()
        invariant
            1 <= i <= active@.len(),
            r@ == seq!['*', ' '] + rails((i - 1) as nat),
        decreases active@.len() - i,
    {
        r.append("| ");
        proof {
            reveal_strlit("| ");
            assert(r@ =~= seq!['*', ' '] + rails(i as nat));
        }
        i += 1;
    }
    r
}

/// Builds the graph rows for a commit history given newest first: one row
/// per commit, in the same order, each row carrying the lane prefix the
/// algorithm assigns at that point.
pub fn build_commit_graph_entries(commits: &Vec<Commit>) -> (rows: Vec<CommitGraphEntry>)
    ensures
        rows@.len() == commits@.len(),
        forall|i: int|
            0 <= i < commits@.len() ==> entry_matches(
                #[trigger] rows@[i],
                commits@[i],
                lanes_at(commits@, i),
            ),
{
    let mut active: Vec<String> = Vec::new();
    let mut rows: Vec<CommitGraphEntry> = Vec::new();
    let mut ci: usize = 0;
    while ci < commits.len()
        invariant
            ci <= commits@.len(),
            rows@.len() == ci,
            lanes_view(active@) == active_after(commits@, ci as int),
            forall|i: int|
                0 <= i < ci ==> entry_matches(
                    #[trigger] rows@[i],
                    commits@[i],
                    lanes_at(commits@, i),
                ),
        decreases commits@.len() - ci,
    {
        let commit = &commits[ci];
        move_lane_to_front(&mut active, &commit.sha);
        proof {
            assert(lanes_view(active@).len() == lanes_at(commits@, ci as int));
            assert(lanes_view(active@).len() >= 1);
        }
        let graph = build_graph_prefix(&active);
        let sha_len = commit.sha.as_str().unicode_len();
        let keep: usize = if sha_len <= 7 {
            sha_len
        } else {
            7
        };
        let short_sha = commit.sha.as_str().substring_char(0, keep).to_owned();
        let row = CommitGraphEntry {
            graph,
            short_sha,
            summary: commit.summary(),
            author: commit.display_author(),
            date: commit.display_date(),
        };
        proof {
            assert(row.short_sha@ == short_sha_of(commit.sha@));
        }
        rows.push(row);
        active.remove(0);
        let ghost consumed: Seq<Seq<char>> = lanes_view(active@);
        proof {
            assert(consumed =~= move_to_front(
                active_after(commits@, ci as int),
                commits@[ci as int].sha@,
            ).drop_first());
        }
        let mut pi: usize = 0;
        while pi < commit.parents.len()
            invariant
                pi <= commit.parents@.len(),
                place_parents(lanes_view(active@), parents_view(*commit), pi as int)
                    == place_parents(consumed, parents_view(*commit), 0),
            decreases commit.parents@.len() - pi,
        {
            proof {
                assert(parents_view(*commit)[pi as int] == commit.parents@[pi as int]@);
            }
            place_parent_at(&mut active, pi, &commit.parents[pi]);
            pi += 1;
        }
        dedup_branches(&mut active);
        proof {
            assert(lanes_view(active@) == active_after(commits@, ci + 1));
        }
        ci += 1;
    }
    rows
}

/// No two lanes hold the same hash.
pub open spec fn distinct_lanes(lanes: Seq<Seq<char>>) -> bool {
    forall|i: int, j: int| 0 <= i < j < lanes.len() ==> lanes[i] != lanes[j]
}

proof fn lemma_remove_keeps_absent(lanes: Seq<Seq<char>>, k: int, x: Seq<char>)
    requires
        0 <= k < lanes.len(),
        !lanes.contains(x),
    ensures
        !lanes.remove(k).contains(x),
{
    if lanes.remove(k).contains(x) {
        let j = choose|j: int| 0 <= j < lanes.remove(k).len() && lanes.remove(k)[j] == x;
        if j < k {
            assert(lanes[j] == x);
        } else {
            assert(lanes[j + 1] == x);
        }
    }
}

proof fn lemma_insert_keeps_absent(lanes: Seq<Seq<char>>, k: int, y: Seq<char>, x: Seq<char>)
    requires
        0 <= k <= lanes.len(),
        !lanes.contains(x),
        y != x,
    ensures
        !lanes.insert(k, y).contains(x),
{
    if lanes.insert(k, y).contains(x) {
        let j = choose|j: int| 0 <= j < lanes.insert(k, y).len() && lanes.insert(k, y)[j] == x;
        if j < k {
            assert(lanes[j] == x);
        } else if j > k {
            assert(lanes[j - 1] == x);
        }
    }
}

proof fn lemma_remove_keeps_distinct(lanes: Seq<Seq<char>>, k: int)
    requires
        0 <= k < lanes.len(),
        distinct_lanes(lanes),
    ensures
        distinct_lanes(lanes.remove(k)),
{
    assert forall|i: int, j: int|
        0 <= i < j < lanes.remove(k).len() implies lanes.remove(k)[i] != lanes.remove(k)[j] by {
        let oi: int = if i < k {
            i
        } else {
            i + 1
        };
        let oj: int = if j < k {
            j
        } else {
            j + 1
        };
        assert(lanes.remove(k)[i] == lanes[oi]);
        assert(lanes.remove(k)[j] == lanes[oj]);
    }
}

proof fn lemma_insert_fresh_distinct(lanes: Seq<Seq<char>>, k: int, y: Seq<char>)
    requires
        0 <= k <= lanes.len(),
        distinct_lanes(lanes),
        !lanes.contains(y),
    ensures
        distinct_lanes(lanes.insert(k, y)),
{
    assert forall|i: int, j: int|
        0 <= i < j < lanes.insert(k, y).len() implies lanes.insert(k, y)[i] != lanes.insert(
        k,
        y,
    )[j] by {
        if i != k && j != k {
            let oi: int = if i < k {
                i
            } else {
                i - 1
            };
            let oj: int = if j < k {
                j
            } else {
                j - 1
            };
            assert(lanes.insert(k, y)[i] == lanes[oi]);
            assert(lanes.insert(k, y)[j] == lanes[oj]);
        } else if i == k {
            assert(lanes.insert(k, y)[j] == lanes[j - 1]);
            assert(lanes.contains(lanes[j - 1])) by {
                assert(lanes[j - 1] == lanes[j - 1]);
            }
        } else {
            assert(lanes.insert(k, y)[i] == lanes[i]);
            assert(lanes.contains(lanes[i])) by {
                assert(lanes[i] == lanes[i]);
            }
        }
    }
}

proof fn lemma_dedup_distinct_identity(lanes: Seq<Seq<char>>)
    requires
        distinct_lanes(lanes),
    ensures
        dedup_lanes(lanes) == lanes,
    decreases lanes.len(),
{
    if lanes.len() > 0 {
        assert(!lanes.drop_last().contains(lanes.last())) by {
            if lanes.drop_last().contains(lanes.last()) {
                let j = choose|j: int|
                    0 <= j < lanes.drop_last().len() && lanes.drop_last()[j] == lanes.last();
                assert(lanes[j] == lanes[lanes.len() - 1]);
            }
        }
        assert(distinct_lanes(lanes.drop_last())) by {
            assert(forall|i: int, j: int|
                0 <= i < j < lanes.drop_last().len() ==> lanes.drop_last()[i] == lanes[i]
                    && lanes.drop_last()[j] == lanes[j]);
        }
        lemma_dedup_distinct_identity(lanes.drop_last());
        assert(dedup_lanes(lanes) =~= lanes);
    }
}

proof fn lemma_dedup_keeps_membership(lanes: Seq<Seq<char>>, x: Seq<char>)
    ensures
        dedup_lanes(lanes).contains(x) <==> lanes.contains(x),
    decreases lanes.len(),
{
    if lanes.len() > 0 {
        lemma_dedup_keeps_membership(lanes.drop_last(), x);
        let shorter = dedup_lanes(lanes.drop_last());
        if lanes.drop_last().contains(lanes.last()) {
            if lanes.contains(x) {
                let j = choose|j: int| 0 <= j < lanes.len() && lanes[j] == x;
                if j == lanes.len() - 1 {
                    assert(lanes.drop_last().contains(lanes.last()));
                } else {
                    assert(lanes.drop_last()[j] == x);
                }
            }
        } else {
            if lanes.contains(x) && x != lanes.last() {
                let j = choose|j: int| 0 <= j < lanes.len() && lanes[j] == x;
                assert(lanes.drop_last()[j] == x);
                let k = choose|k: int| 0 <= k < shorter.len() && shorter[k] == x;
                assert(shorter.push(lanes.last())[k] == x);
            }
            if x == lanes.last() {
                assert(shorter.push(lanes.last())[shorter.len() as int] == x);
            }
            if shorter.push(lanes.last()).contains(x) && x != lanes.last() {
                let k = choose|k: int|
                    0 <= k < shorter.push(lanes.last()).len() && shorter.push(lanes.last())[k]
                        == x;
                assert(k < shorter.len());
                assert(shorter[k] == x);
                let j = choose|j: int|
                    0 <= j < lanes.drop_last().len() && lanes.drop_last()[j] == x;
                assert(lanes[j] == x);
            }
            if x == lanes.last() {
                assert(lanes[lanes.len() - 1] == x);
            }
        }
    }
}

proof fn lemma_dedup_is_distinct(lanes: Seq<Seq<char>>)
    ensures
        distinct_lanes(dedup_lanes(lanes)),
    decreases lanes.len(),
{
    if lanes.len() > 0 {
        lemma_dedup_is_distinct(lanes.drop_last());
        if !lanes.drop_last().contains(lanes.last()) {
            let shorter = dedup_lanes(lanes.drop_last());
            assert(!shorter.contains(lanes.last())) by {
                lemma_dedup_keeps_membership(lanes.drop_last(), lanes.last());
            }
            assert forall|i: int, j: int|
                0 <= i < j < shorter.push(lanes.last()).len() implies shorter.push(
                lanes.last(),
            )[i] != shorter.push(lanes.last())[j] by {
                if j < shorter.len() {
                    assert(shorter.push(lanes.last())[i] == shorter[i]);
                    assert(shorter.push(lanes.last())[j] == shorter[j]);
                } else {
                    assert(shorter.push(lanes.last())[i] == shorter[i]);
                    if shorter[i] == lanes.last() {
                        assert(shorter.contains(lanes.last()));
                    }
                }
            }
        }
    }
}

/// Every lane state the builder reaches is duplicate-free: the collapse at
/// the end of each step leaves no hash in two lanes. This discharges the
/// distinctness hypothesis of `lemma_merge_commit_opens_lane` for every
/// reachable state.
pub proof fn lemma_active_lanes_distinct(commits: Seq<Commit>, i: int)
    ensures
        distinct_lanes(active_after(commits, i)),
    decreases i,
{
    if i <= 0 {
        assert(active_after(commits, i) =~= Seq::<Seq<char>>::empty());
    } else {
        lemma_dedup_is_distinct(
            place_parents(
                move_to_front(active_after(commits, i - 1), commits[i - 1].sha@).drop_first(),
                parents_view(commits[i - 1]),
                0,
            ),
        );
    }
}

/// A history of one root commit yields exactly one row, drawn with a single
/// lane: its prefix is the single front-lane marker.
///
/// With `build_commit_graph_entries`'s contract this pins the whole output
/// for a one-commit history.
pub proof fn lemma_single_root_single_lane(c: Commit)
    requires
        c.parents@.len() == 0,
    ensures
        lanes_at(seq![c], 0) == 1,
        lane_prefix(lanes_at(seq![c], 0)) == seq!['*', ' '],
{
    let commits = seq![c];
    assert(active_after(commits, 0) =~= Seq::<Seq<char>>::empty());
    assert(find_lane(Seq::<Seq<char>>::empty(), c.sha@) == 0);
    assert(move_to_front(Seq::<Seq<char>>::empty(), c.sha@) =~= seq![c.sha@]);
    assert(lane_prefix(1) =~= seq!['*', ' ']);
}

/// A linear chain of three commits (newest first, each the parent of the one
/// before) is drawn with a single lane throughout: every row's prefix is the
/// single front-lane marker, and the rows keep the input order, which
/// `build_commit_graph_entries`'s contract ties to the commits one by one.
pub proof fn lemma_linear_chain_single_lane(c3: Commit, c2: Commit, c1: Commit)
    requires
        c3.parents@.len() == 1,
        c3.parents@[0]@ == c2.sha@,
        c2.parents@.len() == 1,
        c2.parents@[0]@ == c1.sha@,
        c1.parents@.len() == 0,
    ensures
        forall|i: int|
            0 <= i < 3 ==> lanes_at(seq![c3, c2, c1], i) == 1 && lane_prefix(
                lanes_at(seq![c3, c2, c1], i),
            ) == seq!['*', ' '],
{
    reveal_with_fuel(place_parents, 3);
    reveal_with_fuel(dedup_lanes, 2);
    let commits = seq![c3, c2, c1];
    let empty_lanes = Seq::<Seq<char>>::empty();
    assert(lane_prefix(1) =~= seq!['*', ' ']);
    assert(parents_view(c3) =~= seq![c2.sha@]);
    assert(parents_view(c2) =~= seq![c1.sha@]);

    assert(active_after(commits, 0) =~= empty_lanes);
    assert(move_to_front(empty_lanes, c3.sha@) =~= seq![c3.sha@]);
    assert(lanes_at(commits, 0) == 1);

    let consumed3 = move_to_front(empty_lanes, c3.sha@).drop_first();
    assert(consumed3 =~= empty_lanes);
    assert(place_parent(empty_lanes, 0, c2.sha@) =~= seq![c2.sha@]);
    let placed3 = place_parents(consumed3, parents_view(c3), 0);
    assert(placed3 =~= seq![c2.sha@]);
    assert(dedup_lanes(seq![c2.sha@]) =~= seq![c2.sha@]) by {
        assert(seq![c2.sha@].drop_last() =~= empty_lanes);
        assert(!empty_lanes.contains(seq![c2.sha@].last()));
    }
    assert(active_after(commits, 1) =~= seq![c2.sha@]);

    assert(find_lane(seq![c2.sha@], c2.sha@) == 0);
    assert(move_to_front(seq![c2.sha@], c2.sha@) =~= seq![c2.sha@] + seq![c2.sha@].remove(0));
    assert(seq![c2.sha@].remove(0) =~= empty_lanes);
    assert(move_to_front(seq![c2.sha@], c2.sha@).len() == 1);
    assert(lanes_at(commits, 1) == 1);

    let consumed2 = move_to_front(seq![c2.sha@], c2.sha@).drop_first();
    assert(consumed2 =~= empty_lanes);
    let placed2 = place_parents(consumed2, parents_view(c2), 0);
    assert(place_parent(empty_lanes, 0, c1.sha@) =~= seq![c1.sha@]);
    assert(placed2 =~= seq![c1.sha@]);
    assert(dedup_lanes(seq![c1.sha@]) =~= seq![c1.sha@]) by {
        assert(seq![c1.sha@].drop_last() =~= empty_lanes);
        assert(!empty_lanes.contains(seq![c1.sha@].last()));
    }
    assert(active_after(commits, 2) =~= seq![c1.sha@]);

    assert(find_lane(seq![c1.sha@], c1.sha@) == 0);
    assert(seq![c1.sha@].remove(0) =~= empty_lanes);
    assert(move_to_front(seq![c1.sha@], c1.sha@).len() == 1);
    assert(lanes_at(commits, 2) == 1);
}

/// Processing a merge commit whose lane is open, with two distinct parents
/// neither of which has a lane yet, grows the open lanes by exactly one.
pub proof fn lemma_merge_commit_opens_lane(lanes: Seq<Seq<char>>, m: Commit)
    requires
        distinct_lanes(lanes),
        lanes.contains(m.sha@),
        m.parents@.len() == 2,
        m.parents@[0]@ != m.parents@[1]@,
        !lanes.contains(m.parents@[0]@),
        !lanes.contains(m.parents@[1]@),
    ensures
        lanes_after_commit(lanes, m).len() == lanes.len() + 1,
{
    reveal_with_fuel(place_parents, 4);
    let sha = m.sha@;
    let p1 = m.parents@[0]@;
    let p2 = m.parents@[1]@;
    assert(parents_view(m) =~= seq![p1, p2]);

    lemma_find_lane_bounds(lanes, sha);
    let k = find_lane(lanes, sha);
    assert(k < lanes.len()) by {
        if k == lanes.len() {
            let j = choose|j: int| 0 <= j < lanes.len() && lanes[j] == sha;
            assert(lanes[j] != sha);
        }
    }

    let fronted = move_to_front(lanes, sha);
    assert(fronted == seq![sha] + lanes.remove(k));
    let consumed = fronted.drop_first();
    assert(consumed =~= lanes.remove(k));
    assert(consumed.len() == lanes.len() - 1);
    lemma_remove_keeps_distinct(lanes, k);
    lemma_remove_keeps_absent(lanes, k, p1);
    lemma_remove_keeps_absent(lanes, k, p2);

    lemma_find_lane_bounds(consumed, p1);
    assert(find_lane(consumed, p1) == consumed.len()) by {
        if find_lane(consumed, p1) < consumed.len() {
            assert(consumed.contains(p1)) by {
                assert(consumed[find_lane(consumed, p1)] == p1);
            }
        }
    }
    let with_p1 = place_parent(consumed, 0, p1);
    assert(with_p1 == consumed.insert(0, p1));
    assert(with_p1.len() == lanes.len());
    lemma_insert_fresh_distinct(consumed, 0, p1);
    lemma_insert_keeps_absent(consumed, 0, p1, p2);
    assert(with_p1.contains(p1)) by {
        assert(with_p1[0] == p1);
    }

    lemma_find_lane_bounds(with_p1, p2);
    assert(find_lane(with_p1, p2) == with_p1.len()) by {
        if find_lane(with_p1, p2) < with_p1.len() {
            assert(with_p1.contains(p2)) by {
                assert(with_p1[find_lane(with_p1, p2)] == p2);
            }
        }
    }
    assert(with_p1.len() >= 1);
    let with_p2 = place_parent(with_p1, 1, p2);
    assert(with_p2 == with_p1.insert(1, p2));
    assert(with_p2.len() == lanes.len() + 1);
    lemma_insert_fresh_distinct(with_p1, 1, p2);

    let placed = place_parents(consumed, parents_view(m), 0);
    assert(placed == with_p2);
    lemma_dedup_distinct_identity(with_p2);
}

/// The text of one rendered graph row: prefix, shortened hash, summary, and
/// the author and date when known, ending in a newline.
pub open spec fn row_line_spec(e: CommitGraphEntry) -> Seq<char> {
    e.graph@ + e.short_sha@ + " "@ + e.summary@ + (match e.author {
        Some(a) => "  • "@ + a@,
        None => Seq::empty(),
    }) + (match e.date {
        Some(d) => "  ("@ + d@ + ")"@,
        None => Seq::empty(),
    }) + "\n"@
}

/// The concatenated text of all rows.
pub open spec fn rows_text(entries: Seq<CommitGraphEntry>) -> Seq<char>
    decreases entries.len(),
{
    if entries.len() == 0 {
        Seq::empty()
    } else {
        rows_text(entries.drop_last()) + row_line_spec(entries.last())
    }
}

/// The text shown in the commits preview: one line per row, or a
/// placeholder when the history is empty.
pub open spec fn commit_graph_preview_spec(entries: Seq<CommitGraphEntry>) -> Seq<char> {
    if entries.len() == 0 {
        "No commits found."@
    } else {
        rows_text(entries)
    }
}

/// Renders the commits preview for a list of graph rows.
pub fn commit_graph_preview_string(entries: &Vec<CommitGraphEntry>) -> (r: String)
    ensures
        r@ == commit_graph_preview_spec(entries@),
{
    if entries.len() == 0 {
        return "No commits found.".to_owned();
    }
    let mut r = String::new();
    let mut i: usize = 0;
    while i < entries.len()
        invariant
            i <= entries@.len(),
            r@ == rows_text(entries@.take(i as int)),
        decreases entries@.len() - i,
    {
        let e = &entries[i];
        r.append(e.graph.as_str());
        r.append(e.short_sha.as_str());
        r.append(" ");
        r.append(e.summary.as_str());
        match &e.author {
            Some(a) => {
                r.append("  • ");
                r.append(a.as_str());
            },
            None => {},
        }
        match &e.date {
            Some(d) => {
                r.append("  (");
                r.append(d.as_str());
                r.append(")");
            },
            None => {},
        }
        r.append("\n");
        proof {
            assert(entries@.take(i + 1).drop_last() =~= entries@.take(i as int));
            assert(entries@.take(i + 1).last() == entries@[i as int]);
            assert(r@ =~= rows_text(entries@.take(i + 1)));
        }
        i += 1;
    }
    proof {
        assert(entries@.take(entries@.len() as int) =~= entries@);
    }
    r
}

} // verus!
