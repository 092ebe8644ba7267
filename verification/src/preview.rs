//! The preview panel's modes and its content cache.

use vstd::prelude::*;

verus! {

/// The side panel's content kind. The modes form the cycling order
/// `Body → Diff → Commits`; the closed panel is represented by `None`
/// wherever an optional mode appears.
#[derive(Debug, Clone, Copy, PartialEq, Eq, Hash, Structural)]
pub enum PreviewMode {
    Body,
    Diff,
    Commits,
}

impl PreviewMode {
    /// The mode's display name.
    pub open spec fn name_spec(self) -> Seq<char> {
        match self {
            PreviewMode::Body => "Body"@,
            PreviewMode::Diff => "Diff"@,
            PreviewMode::Commits => "Commits"@,
        }
    }

    pub fn name(&self) -> (r: String)
        ensures
            r@ == self.name_spec(),
    {
        match self {
            PreviewMode::Body => "Body",
            PreviewMode::Diff => "Diff",
            PreviewMode::Commits => "Commits",
        }.to_owned()
    }
}

/// One cached preview: the rendered content for one mode of one pull
/// request.
struct CacheEntry {
    mode: PreviewMode,
    id: String,
    content: String,
}

/// The key a cache entry is stored under.
spec fn entry_key(e: CacheEntry) -> (PreviewMode, Seq<char>) {
    (e.mode, e.id@)
}

/// The map held by a list of cache entries, later entries winning.
spec fn map_of(entries: Seq<CacheEntry>) -> Map<(PreviewMode, Seq<char>), Seq<char>>
    decreases entries.len(),
{
    if entries.len() == 0 {
        Map::empty()
    } else {
        map_of(entries.drop_last()).insert(entry_key(entries.last()), entries.last().content@)
    }
}

proof fn lemma_map_of_contains(entries: Seq<CacheEntry>, k: (PreviewMode, Seq<char>))
    ensures
        map_of(entries).contains_key(k) <==> exists|i: int|
            0 <= i < entries.len() && entry_key(#[trigger] entries[i]) == k,
    decreases entries.len(),
{
    if entries.len() > 0 {
        lemma_map_of_contains(entries.drop_last(), k);
        if map_of(entries).contains_key(k) {
            if entry_key(entries.last()) == k {
                assert(entry_key(entries[entries.len() - 1]) == k);
            } else {
                let i = choose|i: int|
                    0 <= i < entries.drop_last().len() && entry_key(
                        #[trigger] entries.drop_last()[i],
                    ) == k;
                assert(entry_key(entries[i]) == k);
            }
        }
        if exists|i: int| 0 <= i < entries.len() && entry_key(#[trigger] entries[i]) == k {
            let i = choose|i: int| 0 <= i < entries.len() && entry_key(#[trigger] entries[i]) == k;
            if i < entries.len() - 1 {
                assert(entry_key(entries.drop_last()[i]) == k);
            }
        }
    }
}

/// No two entries share a key.
spec fn distinct_keys(entries: Seq<CacheEntry>) -> bool {
    forall|i: int, j: int|
        0 <= i < j < entries.len() ==> entry_key(#[trigger] entries[i]) != entry_key(
            #[trigger] entries[j],
        )
}

proof fn lemma_map_of_value_at(entries: Seq<CacheEntry>, i: int)
    requires
        distinct_keys(entries),
        0 <= i < entries.len(),
    ensures
        map_of(entries).contains_key(entry_key(entries[i])),
        map_of(entries)[entry_key(entries[i])] == entries[i].content@,
    decreases entries.len(),
{
    if i == entries.len() - 1 {
        lemma_map_of_contains(entries, entry_key(entries[i]));
    } else {
        assert(distinct_keys(entries.drop_last())) by {
            assert(forall|a: int, b: int|
                0 <= a < b < entries.drop_last().len() ==> entries.drop_last()[a] == entries[a]
                    && entries.drop_last()[b] == entries[b]);
        }
        lemma_map_of_value_at(entries.drop_last(), i);
        assert(entries.drop_last()[i] == entries[i]);
        assert(entry_key(entries[entries.len() - 1]) != entry_key(entries[i]));
    }
}

/// The cache of rendered preview content, keyed by mode and pull-request
/// id. It has no eviction policy beyond explicit pruning: it is bounded by
/// the working set, not by a capacity.
pub struct PreviewCache {
    entries: Vec<CacheEntry>,
}

impl PreviewCache {
    /// The keyed contents of the cache.
    pub closed spec fn contents(self) -> Map<(PreviewMode, Seq<char>), Seq<char>> {
        map_of(self.entries@)
    }

    /// Internal shape invariant: one entry per key.
    pub closed spec fn wf(self) -> bool {
        distinct_keys(self.entries@)
    }

    /// An empty cache.
    pub fn new() -> (r: PreviewCache)
        ensures
            r.wf(),
            r.contents() == Map::<(PreviewMode, Seq<char>), Seq<char>>::empty(),
    {
        PreviewCache { entries: Vec::new() }
    }

    /// Index of the entry holding `(mode, id)`, or the entry count.
    fn position_of(&self, mode: PreviewMode, id: &String) -> (r: usize)
        ensures
            r <= self.entries@.len(),
            forall|i: int|
                0 <= i < r ==> entry_key(#[trigger] self.entries@[i]) != (mode, id@),
            r < self.entries@.len() ==> entry_key(self.entries@[r as int]) == (mode, id@),
    {
        let mut i: usize = 0;
        while i < self.entries.len()
            invariant
                i <= self.entries@.len(),
                forall|j: int|
                    0 <= j < i ==> entry_key(#[trigger] self.entries@[j]) != (mode, id@),
            decreases self.entries@.len() - i,
        {
            if self.entries[i].mode == mode && self.entries[i].id.eq(id) {
                return i;
            }
            i += 1;
        }
        i
    }

    /// Whether content is cached for `(mode, id)`.
    pub fn has(&self, mode: PreviewMode, id: &String) -> (r: bool)
        ensures
            r == self.contents().contains_key((mode, id@)),
    {
        let i = self.position_of(mode, id);
        proof {
            lemma_map_of_contains(self.entries@, (mode, id@));
            if i < self.entries@.len() {
                assert(entry_key(self.entries@[i as int]) == (mode, id@));
            } else {
                if exists|j: int|
                    0 <= j < self.entries@.len() && entry_key(#[trigger] self.entries@[j]) == (
                    mode,
                    id@,
                ) {
                    let j = choose|j: int|
                        0 <= j < self.entries@.len() && entry_key(#[trigger] self.entries@[j]) == (
                        mode,
                        id@,
                        );
                    assert(entry_key(self.entries@[j]) != (mode, id@));
                }
            }
        }
        i < self.entries.len()
    }

    /// The cached content for `(mode, id)`, when present.
    pub fn get(&self, mode: PreviewMode, id: &String) -> (r: Option<&String>)
        requires
            self.wf(),
        ensures
            r is Some <==> self.contents().contains_key((mode, id@)),
            r matches Some(c) ==> c@ == self.contents()[(mode, id@)],
    {
        let i = self.position_of(mode, id);
        proof {
            lemma_map_of_contains(self.entries@, (mode, id@));
            if i < self.entries@.len() {
                lemma_map_of_value_at(self.entries@, i as int);
            } else {
                if exists|j: int|
                    0 <= j < self.entries@.len() && entry_key(#[trigger] self.entries@[j]) == (
                    mode,
                    id@,
                ) {
                    let j = choose|j: int|
                        0 <= j < self.entries@.len() && entry_key(#[trigger] self.entries@[j]) == (
                        mode,
                        id@,
                        );
                    assert(entry_key(self.entries@[j]) != (mode, id@));
                }
            }
        }
        if i < self.entries.len() {
            Some(&self.entries[i].content)
        } else {
            None
        }
    }

    /// Stores `content` under `(mode, id)`, replacing any previous content.
    pub fn put(&mut self, mode: PreviewMode, id: String, content: String)
        requires
            old(self).wf(),
        ensures
            final (self).wf(),
            final (self).contents() == old(self).contents().insert((mode, id@), content@),
    {
        let i = self.position_of(mode, &id);
        let ghost before: Seq<CacheEntry> = self.entries@;
        if i < self.entries.len() {
            self.entries.remove(i);
            proof {
                lemma_remove_entry(before, i as int);
            }
        }
        let ghost mid: Seq<CacheEntry> = self.entries@;
        self.entries.push(CacheEntry { mode, id, content });
        proof {
            assert(self.entries@.drop_last() =~= mid);
            assert(self.entries@.last() == self.entries@[self.entries@.len() - 1]);
            if i < before.len() {
                assert(map_of(self.entries@) =~= map_of(before).insert(
                    (mode, self.entries@.last().id@),
                    content@,
                ));
            }
            assert forall|a: int, b: int|
                0 <= a < b < self.entries@.len() implies entry_key(#[trigger] self.entries@[a])
                != entry_key(#[trigger] self.entries@[b]) by {
                if b == self.entries@.len() - 1 {
                    lemma_map_of_contains(mid, entry_key(self.entries@[a]));
                    assert(mid[a] == self.entries@[a]);
                    if entry_key(self.entries@[a]) == entry_key(self.entries@[b]) {
                        if i < before.len() {
                            lemma_remove_keeps_missing(before, i as int, (mode, self.entries@[b].id@));
                        }
                    }
                } else {
                    assert(mid[a] == self.entries@[a]);
                    assert(mid[b] == self.entries@[b]);
                }
            }
        }
    }

    /// Removes every entry, in every mode, cached for `id`.
    pub fn drop_id(&mut self, id: &String)
        requires
            old(self).wf(),
        ensures
            final (self).wf(),
            final (self).contents() == old(self).contents().restrict(
                Set::new(|k: (PreviewMode, Seq<char>)| k.1 != id@),
            ),
    {
        let mut out: Vec<CacheEntry> = Vec::new();
        let mut i: usize = 0;
        let ghost all: Seq<CacheEntry> = self.entries@;
        while i < self.entries.len()
            invariant
                i <= all.len(),
                all == self.entries@,
                distinct_keys(all),
                distinct_keys(out@),
                forall|a: int, b: int|
                    0 <= a < out@.len() && 0 <= b < all.len() ==> (
                    #[trigger] entry_key(out@[a]) == #[trigger] entry_key(all[b]) ==> exists|c: int|
                        0 <= c < i && entry_key(all[c]) == entry_key(all[b])),
                map_of(out@) == map_of(all.take(i as int)).restrict(
                    Set::new(|k: (PreviewMode, Seq<char>)| k.1 != id@),
                ),
            decreases all.len() - i,
        {
            let e = &self.entries[i];
            let keep_it = !e.id.eq(id);
            proof {
                assert(all.take(i + 1).drop_last() =~= all.take(i as int));
                assert(all.take(i + 1).last() == all[i as int]);
            }
            if keep_it {
                let copy = CacheEntry { mode: e.mode, id: e.id.clone(), content: e.content.clone() };
                proof {
                    assert(entry_key(copy) == entry_key(all[i as int]));
                    assert forall|a: int| 0 <= a < out@.len() implies entry_key(
                        #[trigger] out@[a],
                    ) != entry_key(copy) by {
                        if entry_key(out@[a]) == entry_key(copy) {
                            let c = choose|c: int|
                                0 <= c < i && entry_key(all[c]) == entry_key(all[i as int]);
                            assert(entry_key(all[c]) == entry_key(all[i as int]));
                        }
                    }
                }
                let ghost prev_out: Seq<CacheEntry> = out@;
                out.push(copy);
                proof {
                    assert(out@.drop_last() =~= prev_out);
                    assert(map_of(out@) == map_of(prev_out).insert(
                        entry_key(out@.last()),
                        out@.last().content@,
                    ));
                    assert(entry_key(out@.last()) == entry_key(all[i as int]));
                    assert(map_of(out@) =~= map_of(all.take(i + 1)).restrict(
                        Set::new(|k: (PreviewMode, Seq<char>)| k.1 != id@),
                    ));
                }
            } else {
                proof {
                    assert(map_of(out@) =~= map_of(all.take(i + 1)).restrict(
                        Set::new(|k: (PreviewMode, Seq<char>)| k.1 != id@),
                    ));
                }
            }
            i += 1;
        }
        proof {
            assert(all.take(all.len() as int) =~= all);
        }
        self.entries = out;
    }

    /// Removes exactly the entries whose id is not among `valid_ids`,
    /// leaving every other entry, in every mode, untouched.
    pub fn prune(&mut self, valid_ids: &Vec<String>)
        requires
            old(self).wf(),
        ensures
            final (self).wf(),
            final (self).contents() == old(self).contents().restrict(
                Set::new(
                    |k: (PreviewMode, Seq<char>)|
                        valid_ids@.map_values(|s: String| s@).contains(k.1),
                ),
            ),
    {
        let ghost ids: Seq<Seq<char>> = valid_ids@.map_values(|s: String| s@);
        let mut out: Vec<CacheEntry> = Vec::new();
        let mut i: usize = 0;
        let ghost all: Seq<CacheEntry> = self.entries@;
        while i < self.entries.len()
            invariant
                i <= all.len(),
                all == self.entries@,
                ids == valid_ids@.map_values(|s: String| s@),
                distinct_keys(all),
                distinct_keys(out@),
                forall|a: int, b: int|
                    0 <= a < out@.len() && 0 <= b < all.len() ==> (
                    #[trigger] entry_key(out@[a]) == #[trigger] entry_key(all[b]) ==> exists|c: int|
                        0 <= c < i && entry_key(all[c]) == entry_key(all[b])),
                map_of(out@) == map_of(all.take(i as int)).restrict(
                    Set::new(|k: (PreviewMode, Seq<char>)| ids.contains(k.1)),
                ),
            decreases all.len() - i,
        {
            let mut found = false;
            let mut j: usize = 0;
            while j < valid_ids.len()
                invariant
                    j <= valid_ids@.len(),
                    i < all.len(),
                    all == self.entries@,
                    ids == valid_ids@.map_values(|s: String| s@),
                    found == exists|k: int| 0 <= k < j && ids[k] == all[i as int].id@,
                decreases valid_ids@.len() - j,
            {
                let same = valid_ids[j].eq(&self.entries[i].id);
                proof {
                    if same {
                        assert(ids[j as int] == all[i as int].id@);
                    } else {
                        if exists|k: int| 0 <= k < j + 1 && ids[k] == all[i as int].id@ {
                            let k = choose|k: int| 0 <= k < j + 1 && ids[k] == all[i as int].id@;
                            assert(k < j);
                        }
                    }
                }
                if same {
                    found = true;
                }
                j += 1;
            }
            proof {
                assert(all.take(i + 1).drop_last() =~= all.take(i as int));
                assert(all.take(i + 1).last() == all[i as int]);
                assert(found == ids.contains(all[i as int].id@)) by {
                    if found {
                        let k = choose|k: int| 0 <= k < valid_ids@.len() && ids[k] == all[
                            i as int
                        ].id@;
                        assert(ids[k] == all[i as int].id@);
                    }
                }
            }
            if found {
                let e = &self.entries[i];
                let copy = CacheEntry { mode: e.mode, id: e.id.clone(), content: e.content.clone() };
                proof {
                    assert(entry_key(copy) == entry_key(all[i as int]));
                    assert forall|a: int| 0 <= a < out@.len() implies entry_key(
                        #[trigger] out@[a],
                    ) != entry_key(copy) by {
                        if entry_key(out@[a]) == entry_key(copy) {
                            let c = choose|c: int|
                                0 <= c < i && entry_key(all[c]) == entry_key(all[i as int]);
                            assert(entry_key(all[c]) == entry_key(all[i as int]));
                        }
                    }
                }
                let ghost prev_out: Seq<CacheEntry> = out@;
                out.push(copy);
                proof {
                    assert(out@.drop_last() =~= prev_out);
                    assert(map_of(out@) == map_of(prev_out).insert(
                        entry_key(out@.last()),
                        out@.last().content@,
                    ));
                    assert(entry_key(out@.last()) == entry_key(all[i as int]));
                    assert(map_of(out@) =~= map_of(all.take(i + 1)).restrict(
                        Set::new(|k: (PreviewMode, Seq<char>)| ids.contains(k.1)),
                    ));
                }
            } else {
                proof {
                    assert(map_of(out@) =~= map_of(all.take(i + 1)).restrict(
                        Set::new(|k: (PreviewMode, Seq<char>)| ids.contains(k.1)),
                    ));
                }
            }
            i += 1;
        }
        proof {
            assert(all.take(all.len() as int) =~= all);
        }
        self.entries = out;
    }
}

proof fn lemma_remove_entry(entries: Seq<CacheEntry>, i: int)
    requires
        distinct_keys(entries),
        0 <= i < entries.len(),
    ensures
        distinct_keys(entries.remove(i)),
        map_of(entries.remove(i)) == map_of(entries).remove(entry_key(entries[i])),
    decreases entries.len(),
{
    assert forall|a: int, b: int|
        0 <= a < b < entries.remove(i).len() implies entry_key(#[trigger] entries.remove(i)[a])
        != entry_key(#[trigger] entries.remove(i)[b]) by {
        let oa: int = if a < i {
            a
        } else {
            a + 1
        };
        let ob: int = if b < i {
            b
        } else {
            b + 1
        };
        assert(entries.remove(i)[a] == entries[oa]);
        assert(entries.remove(i)[b] == entries[ob]);
    }
    if i == entries.len() - 1 {
        assert(entries.remove(i) =~= entries.drop_last());
        lemma_map_of_contains(entries.drop_last(), entry_key(entries[i]));
        if map_of(entries.drop_last()).contains_key(entry_key(entries[i])) {
            let j = choose|j: int|
                0 <= j < entries.drop_last().len() && entry_key(
                    #[trigger] entries.drop_last()[j],
                ) == entry_key(entries[i]);
            assert(entry_key(entries[j]) == entry_key(entries[i]));
        }
        assert(map_of(entries.remove(i)) =~= map_of(entries).remove(entry_key(entries[i])));
    } else {
        assert(distinct_keys(entries.drop_last())) by {
            assert(forall|a: int, b: int|
                0 <= a < b < entries.drop_last().len() ==> entries.drop_last()[a] == entries[a]
                    && entries.drop_last()[b] == entries[b]);
        }
        lemma_remove_entry(entries.drop_last(), i);
        assert(entries.remove(i).drop_last() =~= entries.drop_last().remove(i));
        assert(entries.remove(i).last() == entries.last());
        assert(entries.drop_last()[i] == entries[i]);
        assert(entry_key(entries.last()) != entry_key(entries[i]));
        assert(map_of(entries.remove(i)) =~= map_of(entries).remove(entry_key(entries[i])));
    }
}

proof fn lemma_remove_keeps_missing(entries: Seq<CacheEntry>, i: int, k: (PreviewMode, Seq<char>))
    requires
        0 <= i < entries.len(),
    ensures
        map_of(entries.remove(i)).contains_key(k) ==> map_of(entries).contains_key(k),
{
    lemma_map_of_contains(entries.remove(i), k);
    lemma_map_of_contains(entries, k);
    if map_of(entries.remove(i)).contains_key(k) {
        let j = choose|j: int|
            0 <= j < entries.remove(i).len() && entry_key(#[trigger] entries.remove(i)[j]) == k;
        if j < i {
            assert(entry_key(entries[j]) == k);
        } else {
            assert(entry_key(entries[j + 1]) == k);
        }
    }
}

} // verus!
