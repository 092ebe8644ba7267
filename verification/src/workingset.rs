//! The working set: the ordered pull-request records under review and the
//! selection cursor over them.

use vstd::prelude::*;

use vstd::arithmetic::div_mod::{lemma_add_mod_noop, lemma_mod_self_0, lemma_small_mod};

use crate::prs::PullRequest;

verus! {

/// The id views of a list of records.
pub open spec fn ids_view(items: Seq<PullRequest>) -> Seq<Seq<char>> {
    items.map_values(|pr: PullRequest| pr.id@)
}

/// Index of the first record with id `id`, or the length when none has it.
pub open spec fn find_id(items: Seq<PullRequest>, id: Seq<char>) -> int
    decreases items.len(),
{
    if items.len() == 0 {
        0
    } else if items[0].id@ == id {
        0
    } else {
        1 + find_id(items.drop_first(), id)
    }
}

proof fn lemma_id_scan(items: Seq<PullRequest>, id: Seq<char>, i: int)
    requires
        0 <= i <= items.len(),
        forall|j: int| 0 <= j < i ==> (#[trigger] items[j]).id@ != id,
        i < items.len() ==> items[i].id@ == id,
    ensures
        find_id(items, id) == i,
    decreases items.len(),
{
    if items.len() > 0 && items[0].id@ != id {
        assert(forall|j: int|
            0 <= j < i - 1 ==> items.drop_first()[j] == items[j + 1] && (
            #[trigger] items[j + 1]).id@ != id);
        lemma_id_scan(items.drop_first(), id, i - 1);
    }
}

/// Whether a record belongs to the repository `owner/name`.
pub open spec fn is_repo_record(pr: PullRequest, owner: Seq<char>, name: Seq<char>) -> bool {
    pr.owner@ == owner && pr.repo@ == name
}

/// Index of the first record of repository `owner/name`, or the length.
pub open spec fn find_repo(items: Seq<PullRequest>, owner: Seq<char>, name: Seq<char>) -> int
    decreases items.len(),
{
    if items.len() == 0 {
        0
    } else if is_repo_record(items[0], owner, name) {
        0
    } else {
        1 + find_repo(items.drop_first(), owner, name)
    }
}

pub proof fn lemma_find_repo_bounds(items: Seq<PullRequest>, owner: Seq<char>, name: Seq<char>)
    ensures
        0 <= find_repo(items, owner, name) <= items.len(),
        forall|j: int|
            0 <= j < find_repo(items, owner, name) ==> !is_repo_record(
                #[trigger] items[j],
                owner,
                name,
            ),
        find_repo(items, owner, name) < items.len() ==> is_repo_record(
            items[find_repo(items, owner, name)],
            owner,
            name,
        ),
    decreases items.len(),
{
    if items.len() > 0 && !is_repo_record(items[0], owner, name) {
        lemma_find_repo_bounds(items.drop_first(), owner, name);
        assert forall|j: int| 0 <= j < find_repo(items, owner, name) implies !is_repo_record(
            #[trigger] items[j],
            owner,
            name,
        ) by {
            if j > 0 {
                assert(items[j] == items.drop_first()[j - 1]);
            }
        }
        if find_repo(items, owner, name) < items.len() {
            assert(items[find_repo(items, owner, name)] == items.drop_first()[find_repo(
                items.drop_first(),
                owner,
                name,
            )]);
        }
    }
}

proof fn lemma_repo_scan(items: Seq<PullRequest>, owner: Seq<char>, name: Seq<char>, i: int)
    requires
        0 <= i <= items.len(),
        forall|j: int| 0 <= j < i ==> !is_repo_record(#[trigger] items[j], owner, name),
        i < items.len() ==> is_repo_record(items[i], owner, name),
    ensures
        find_repo(items, owner, name) == i,
    decreases items.len(),
{
    if items.len() > 0 && !is_repo_record(items[0], owner, name) {
        assert(forall|j: int|
            0 <= j < i - 1 ==> items.drop_first()[j] == items[j + 1] && !is_repo_record(
                #[trigger] items[j + 1],
                owner,
                name,
            ));
        lemma_repo_scan(items.drop_first(), owner, name, i - 1);
    }
}

/// The records with id `id` removed, order kept.
pub open spec fn without_id(items: Seq<PullRequest>, id: Seq<char>) -> Seq<PullRequest>
    decreases items.len(),
{
    if items.len() == 0 {
        items
    } else if items.last().id@ == id {
        without_id(items.drop_last(), id)
    } else {
        without_id(items.drop_last(), id).push(items.last())
    }
}

/// No record with the removed id remains.
pub proof fn lemma_without_id_absent(items: Seq<PullRequest>, id: Seq<char>)
    ensures
        forall|j: int|
            0 <= j < without_id(items, id).len() ==> (#[trigger] without_id(items, id)[j]).id@
                != id,
        without_id(items, id).len() <= items.len(),
    decreases items.len(),
{
    if items.len() > 0 {
        lemma_without_id_absent(items.drop_last(), id);
    }
}

/// The records of repository `owner/name` removed, order kept.
pub open spec fn without_repo(items: Seq<PullRequest>, owner: Seq<char>, name: Seq<char>) -> Seq<
    PullRequest,
>
    decreases items.len(),
{
    if items.len() == 0 {
        items
    } else if is_repo_record(items[0], owner, name) {
        without_repo(items.drop_first(), owner, name)
    } else {
        seq![items[0]] + without_repo(items.drop_first(), owner, name)
    }
}

/// The working set after a scoped reload of `owner/name`: the records before
/// the repository's first old position, then the fresh records, then the
/// remaining records with the repository's old records removed.
pub open spec fn spliced(
    items: Seq<PullRequest>,
    fresh: Seq<PullRequest>,
    owner: Seq<char>,
    name: Seq<char>,
) -> Seq<PullRequest> {
    let at = find_repo(items, owner, name);
    items.take(at) + fresh + without_repo(items.skip(at), owner, name)
}

/// Cursor position after advancing by one with wraparound.
pub open spec fn next_index(i: int, len: int) -> int {
    (i + 1) % len
}

/// Cursor position after retreating by one with wraparound.
pub open spec fn prev_index(i: int, len: int) -> int {
    (i + len - 1) % len
}

/// The cursor index reached from `i` by `k` forward steps.
pub open spec fn iterate_next(i: int, len: int, k: nat) -> int
    decreases k,
{
    if k == 0 {
        i
    } else {
        next_index(iterate_next(i, len, (k - 1) as nat), len)
    }
}

proof fn lemma_iterate_next_adds(i: int, len: int, k: nat)
    requires
        0 <= i < len,
    ensures
        iterate_next(i, len, k) == (i + k) % len,
    decreases k,
{
    if k == 0 {
        lemma_small_mod(i as nat, len as nat);
    } else {
        lemma_iterate_next_adds(i, len, (k - 1) as nat);
        lemma_add_mod_noop(i + k - 1, 1, len);
        if len == 1 {
            lemma_small_mod(0, 1);
            assert((i + k - 1) % 1 == 0 && (i + k) % 1 == 0 && 1int % 1 == 0) by {
                lemma_mod_self_0(1);
                lemma_add_mod_noop(i + k - 1, 0, 1);
                assert((i + k - 1) % 1 + 0int % 1 == (i + k - 1) % 1);
                lemma_small_mod(((i + k - 1) % 1) as nat, 1);
            }
        } else {
            lemma_small_mod(1, len as nat);
            lemma_small_mod((((i + k - 1) % len) + 1int % len) as nat % (len as nat), len as nat);
        }
    }
}

/// Moving the selection forward as many times as the working set has
/// records returns it to its starting index: the navigation is cyclic.
pub proof fn lemma_select_next_cycles(i: int, len: int)
    requires
        0 <= i < len,
    ensures
        iterate_next(i, len, len as nat) == i,
{
    lemma_iterate_next_adds(i, len, len as nat);
    lemma_add_mod_noop(i, len, len);
    lemma_mod_self_0(len);
    lemma_small_mod(i as nat, len as nat);
    assert((i % len + len % len) == i);
    lemma_small_mod(i as nat, len as nat);
}

/// The ordered records under review plus the selection cursor. The cursor
/// is `None` exactly when the set is empty and in bounds otherwise; it is
/// moved only by navigation, reload and removal-on-merge.
pub struct WorkingSet {
    pub items: Vec<PullRequest>,
    pub cursor: Option<usize>,
}

impl WorkingSet {
    /// The cursor invariant.
    pub open spec fn wf(self) -> bool {
        &&& (self.cursor is None <==> self.items@.len() == 0)
        &&& (match self.cursor {
            Some(i) => i < self.items@.len(),
            None => true,
        })
    }

    /// A working set over `items`, the first record selected when any.
    pub fn new(items: Vec<PullRequest>) -> (r: WorkingSet)
        ensures
            r.wf(),
            r.items@ == items@,
            r.cursor == if items@.len() == 0 {
                Option::<usize>::None
            } else {
                Option::<usize>::Some(0usize)
            },
    {
        let cursor: Option<usize> = if items.len() == 0 {
            None
        } else {
            Some(0)
        };
        WorkingSet { items, cursor }
    }

    /// The selected record, when the set is not empty.
    pub fn selected(&self) -> (r: Option<&PullRequest>)
        requires
            self.wf(),
        ensures
            r is Some <==> self.cursor is Some,
            r matches Some(pr) ==> self.cursor matches Some(i) && pr == self.items@[i as int],
    {
        match self.cursor {
            Some(i) => Some(&self.items[i]),
            None => None,
        }
    }

    /// Advances the cursor by one, wrapping past the end; a no-op on an
    /// empty set.
    pub fn select_next(&mut self)
        requires
            old(self).wf(),
        ensures
            final (self).wf(),
            final (self).items@ == old(self).items@,
            old(self).cursor is None ==> final (self).cursor is None,
            old(self).cursor matches Some(i) ==> final (self).cursor == Some(
                next_index(i as int, old(self).items@.len() as int) as usize,
            ),
    {
        match self.cursor {
            None => {},
            Some(i) => {
                let len = self.items.len();
                let j: usize = if i + 1 >= len {
                    0
                } else {
                    i + 1
                };
                proof {
                    if i + 1 >= len {
                        lemma_mod_self_0(len as int);
                    } else {
                        lemma_small_mod((i + 1) as nat, len as nat);
                    }
                }
                self.cursor = Some(j);
            },
        }
    }

    /// Retreats the cursor by one, wrapping past the start; a no-op on an
    /// empty set.
    pub fn select_previous(&mut self)
        requires
            old(self).wf(),
        ensures
            final (self).wf(),
            final (self).items@ == old(self).items@,
            old(self).cursor is None ==> final (self).cursor is None,
            old(self).cursor matches Some(i) ==> final (self).cursor == Some(
                prev_index(i as int, old(self).items@.len() as int) as usize,
            ),
    {
        match self.cursor {
            None => {},
            Some(i) => {
                let len = self.items.len();
                let j: usize = if i == 0 {
                    len - 1
                } else {
                    i - 1
                };
                proof {
                    if i == 0 {
                        lemma_small_mod((len - 1) as nat, len as nat);
                    } else {
                        lemma_add_mod_noop(i - 1, len as int, len as int);
                        lemma_mod_self_0(len as int);
                        lemma_small_mod((i - 1) as nat, len as nat);
                        assert((i - 1) % (len as int) + (len as int) % (len as int) == i - 1);
                        lemma_small_mod((i - 1) as nat, len as nat);
                    }
                }
                self.cursor = Some(j);
            },
        }
    }

    /// Removes every record with id `id` and clamps the cursor to the new
    /// bounds, clearing it when the set becomes empty.
    pub fn remove_by_id(&mut self, id: &String)
        requires
            old(self).wf(),
        ensures
            final (self).wf(),
            final (self).items@ == without_id(old(self).items@, id@),
            final (self).cursor == (if final (self).items@.len() == 0 {
                Option::<usize>::None
            } else {
                Some(
                    (if old(self).cursor.unwrap_or(0) as int <= final (self).items@.len() - 1 {
                        old(self).cursor.unwrap_or(0) as int
                    } else {
                        final (self).items@.len() - 1
                    }) as usize,
                )
            }),
    {
        let ghost orig: Seq<PullRequest> = self.items@;
        let mut old_items: Vec<PullRequest> = Vec::new();
        core::mem::swap(&mut self.items, &mut old_items);
        let mut out: Vec<PullRequest> = Vec::new();
        while old_items.len() > 0
            invariant
                old_items@.len() <= orig.len(),
                out@ == without_id(orig.take(orig.len() - old_items@.len()), id@),
                orig.skip(orig.len() - old_items@.len()) == old_items@,
            decreases old_items@.len(),
        {
            let ghost rem: Seq<PullRequest> = old_items@;
            let ghost done: int = orig.len() - rem.len();
            let x = old_items.remove(0);
            proof {
                assert(x == rem[0]);
                assert(rem[0] == orig.skip(done)[0]);
                assert(orig.skip(done)[0] == orig[done]);
                assert(orig.take(done + 1).drop_last() =~= orig.take(done));
                assert(orig.take(done + 1).last() == orig[done]);
                assert(orig.skip(done + 1) =~= old_items@);
            }
            let keep = !x.id.eq(id);
            if keep {
                out.push(x);
            }
            proof {
                assert(out@ == without_id(orig.take(done + 1), id@));
            }
        }
        proof {
            assert(orig.take(orig.len() as int) =~= orig);
        }
        let sel: usize = match self.cursor {
            Some(i) => i,
            None => 0,
        };
        let new_cursor: Option<usize> = if out.len() == 0 {
            None
        } else if sel <= out.len() - 1 {
            Some(sel)
        } else {
            Some(out.len() - 1)
        };
        self.items = out;
        self.cursor = new_cursor;
    }

    /// Replaces the whole set, keeping the cursor's position clamped to the
    /// new length.
    pub fn replace_all(&mut self, new_items: Vec<PullRequest>)
        requires
            old(self).wf(),
        ensures
            final (self).wf(),
            final (self).items@ == new_items@,
            final (self).cursor == (if new_items@.len() == 0 {
                Option::<usize>::None
            } else {
                Some(
                    (if old(self).cursor.unwrap_or(0) as int <= new_items@.len() - 1 {
                        old(self).cursor.unwrap_or(0) as int
                    } else {
                        new_items@.len() - 1
                    }) as usize,
                )
            }),
    {
        let sel: usize = match self.cursor {
            Some(i) => i,
            None => 0,
        };
        let new_cursor: Option<usize> = if new_items.len() == 0 {
            None
        } else if sel <= new_items.len() - 1 {
            Some(sel)
        } else {
            Some(new_items.len() - 1)
        };
        self.items = new_items;
        self.cursor = new_cursor;
    }

    /// Replaces the records of one repository with freshly fetched ones,
    /// splicing them in at the position the old records occupied (or at the
    /// end when none did). The selection follows the previously selected
    /// record's id when that id still exists; otherwise it falls back to the
    /// splice position, clamped to the new bounds.
    pub fn splice_repo(&mut self, owner: &String, name: &String, fresh: Vec<PullRequest>)
        requires
            old(self).wf(),
        ensures
            final (self).wf(),
            final (self).items@ == spliced(old(self).items@, fresh@, owner@, name@),
            (match old(self).cursor {
                Some(i) => {
                    let tid = old(self).items@[i as int].id@;
                    let f = find_id(final (self).items@, tid);
                    if f < final (self).items@.len() {
                        final (self).cursor == Some(f as usize)
                    } else {
                        final (self).cursor == fallback_cursor(
                            final (self).items@.len() as int,
                            find_repo(old(self).items@, owner@, name@),
                        )
                    }
                },
                None => final (self).cursor == fallback_cursor(
                    final (self).items@.len() as int,
                    find_repo(old(self).items@, owner@, name@),
                ),
            }),
    {
        let ghost orig: Seq<PullRequest> = self.items@;
        let sel_id: Option<String> = match self.cursor {
            Some(i) => Some(self.items[i].id.clone()),
            None => None,
        };
        let at = self.position_of_repo(owner, name);
        proof {
            lemma_find_repo_bounds(orig, owner@, name@);
        }
        let mut old_items: Vec<PullRequest> = Vec::new();
        core::mem::swap(&mut self.items, &mut old_items);
        let mut out: Vec<PullRequest> = Vec::new();
        let mut k: usize = 0;
        while k < at
            invariant
                k <= at,
                at <= orig.len(),
                out@ == orig.take(k as int),
                old_items@ == orig.skip(k as int),
            decreases at - k,
        {
            let x = old_items.remove(0);
            proof {
                assert(x == orig[k as int]);
                assert(out@.push(x) =~= orig.take(k + 1));
                assert(old_items@ =~= orig.skip(k + 1));
            }
            out.push(x);
            k += 1;
        }
        let mut fresh_in = fresh;
        let ghost fresh_all: Seq<PullRequest> = fresh_in@;
        while fresh_in.len() > 0
            invariant
                fresh_in@.len() <= fresh_all.len(),
                out@ == orig.take(at as int) + fresh_all.take(fresh_all.len() - fresh_in@.len()),
                fresh_in@ == fresh_all.skip(fresh_all.len() - fresh_in@.len()),
                at <= orig.len(),
            decreases fresh_in@.len(),
        {
            let ghost rem: Seq<PullRequest> = fresh_in@;
            let ghost done: int = fresh_all.len() - rem.len();
            let x = fresh_in.remove(0);
            proof {
                assert(x == rem[0]);
                assert(rem[0] == fresh_all.skip(done)[0]);
                assert(fresh_all.skip(done)[0] == fresh_all[done]);
            }
            out.push(x);
            proof {
                assert(fresh_all.take(done + 1).drop_last() =~= fresh_all.take(done));
                assert(fresh_all.take(done + 1).last() == fresh_all[done]);
                assert(out@ =~= orig.take(at as int) + fresh_all.take(done + 1));
                assert(fresh_in@ =~= fresh_all.skip(done + 1));
            }
        }
        proof {
            assert(fresh_all.take(fresh_all.len() as int) =~= fresh_all);
        }
        while old_items.len() > 0
            invariant
                at <= orig.len(),
                out@ + without_repo(old_items@, owner@, name@) == orig.take(at as int) + fresh_all
                    + without_repo(orig.skip(at as int), owner@, name@),
            decreases old_items@.len(),
        {
            let ghost rem: Seq<PullRequest> = old_items@;
            let x = old_items.remove(0);
            proof {
                assert(x == rem[0]);
                assert(old_items@ =~= rem.drop_first());
            }
            let matches_repo = x.owner.eq(owner) && x.repo.eq(name);
            if !matches_repo {
                out.push(x);
                proof {
                    assert(without_repo(rem, owner@, name@) =~= seq![rem[0]] + without_repo(
                        rem.drop_first(),
                        owner@,
                        name@,
                    ));
                    assert(out@ + without_repo(old_items@, owner@, name@) =~= orig.take(at as int)
                        + fresh_all + without_repo(orig.skip(at as int), owner@, name@));
                }
            } else {
                proof {
                    assert(without_repo(rem, owner@, name@) == without_repo(
                        rem.drop_first(),
                        owner@,
                        name@,
                    ));
                }
            }
        }
        proof {
            assert(without_repo(old_items@, owner@, name@) =~= Seq::<PullRequest>::empty());
            assert(out@ =~= out@ + without_repo(old_items@, owner@, name@));
            assert(out@ == spliced(orig, fresh_all, owner@, name@));
        }
        self.items = out;
        let new_cursor: Option<usize> = match &sel_id {
            Some(tid) => {
                let f = self.position_of_id(tid);
                if f < self.items.len() {
                    Some(f)
                } else {
                    self.fallback_position(at)
                }
            },
            None => self.fallback_position(at),
        };
        self.cursor = new_cursor;
    }

    /// Index of the first record of `owner/name`, or the record count.
    fn position_of_repo(&self, owner: &String, name: &String) -> (r: usize)
        ensures
            r == find_repo(self.items@, owner@, name@),
    {
        let mut i: usize = 0;
        while i < self.items.len()
            invariant
                i <= self.items@.len(),
                forall|j: int|
                    0 <= j < i ==> !is_repo_record(#[trigger] self.items@[j], owner@, name@),
            decreases self.items@.len() - i,
        {
            if self.items[i].owner.eq(owner) && self.items[i].repo.eq(name) {
                proof {
                    lemma_repo_scan(self.items@, owner@, name@, i as int);
                }
                return i;
            }
            i += 1;
        }
        proof {
            lemma_repo_scan(self.items@, owner@, name@, i as int);
        }
        i
    }

    /// Index of the first record with id `id`, or the record count.
    pub fn position_of_id(&self, id: &String) -> (r: usize)
        ensures
            r == find_id(self.items@, id@),
    {
        let mut i: usize = 0;
        while i < self.items.len()
            invariant
                i <= self.items@.len(),
                forall|j: int| 0 <= j < i ==> (#[trigger] self.items@[j]).id@ != id@,
            decreases self.items@.len() - i,
        {
            if self.items[i].id.eq(id) {
                proof {
                    lemma_id_scan(self.items@, id@, i as int);
                }
                return i;
            }
            i += 1;
        }
        proof {
            lemma_id_scan(self.items@, id@, i as int);
        }
        i
    }

    /// The positional fallback selection after a splice at `at`.
    fn fallback_position(&self, at: usize) -> (r: Option<usize>)
        ensures
            r == fallback_cursor(self.items@.len() as int, at as int),
    {
        if self.items.len() == 0 {
            None
        } else if at >= self.items.len() {
            Some(self.items.len() - 1)
        } else {
            Some(at)
        }
    }

    /// The ids of all records, for cache pruning.
    pub fn ids(&self) -> (r: Vec<String>)
        ensures
            r@.map_values(|s: String| s@) == ids_view(self.items@),
    {
        let mut r: Vec<String> = Vec::new();
        let mut i: usize = 0;
        while i < self.items.len()
            invariant
                i <= self.items@.len(),
                r@.map_values(|s: String| s@) == ids_view(self.items@.take(i as int)),
            decreases self.items@.len() - i,
        {
            let ghost prev: Seq<String> = r@;
            r.push(self.items[i].id.clone());
            proof {
                assert forall|j: int|
                    0 <= j < i + 1 implies #[trigger] r@[j] == r@[j] && r@.map_values(
                    |s: String| s@,
                )[j] == ids_view(self.items@.take(i + 1))[j] by {
                    assert(prev.len() == i) by {
                        assert(prev.map_values(|s: String| s@).len() == ids_view(
                            self.items@.take(i as int),
                        ).len());
                    }
                    assert(self.items@.take(i + 1)[j] == self.items@[j]);
                    if j < i {
                        assert(r@[j] == prev[j]);
                        assert(prev.map_values(|s: String| s@)[j] == prev[j]@);
                        assert(ids_view(self.items@.take(i as int))[j] == self.items@.take(
                            i as int,
                        )[j].id@);
                    }
                }
                assert(r@.map_values(|s: String| s@) =~= ids_view(self.items@.take(i + 1)));
            }
            i += 1;
        }
        proof {
            assert(self.items@.take(self.items@.len() as int) =~= self.items@);
        }
        r
    }
}

/// The cursor chosen when selection by id fails after a splice at `at`:
/// nothing on an empty set, the splice position when still in bounds, the
/// last record otherwise.
pub open spec fn fallback_cursor(len: int, at: int) -> Option<usize> {
    if len == 0 {
        None
    } else if at >= len {
        Some((len - 1) as usize)
    } else {
        Some(at as usize)
    }
}

} // verus!
