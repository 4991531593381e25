//! The cache of highlighted diffs: the most recently used ones, in memory and in
//! a file.

use std::collections::VecDeque;

use vstd::prelude::*;

use crate::ui::diff_syntax::{HighlightedDiff, HighlightedDiffKey, HighlightedDiffView, KeyView};

verus! {

/// How many highlighted diffs are remembered.
pub const HIGHLIGHTED_DIFF_CACHE_CAPACITY: usize = 16;

/// The version of the cache file's format.
pub const HIGHLIGHTED_DIFF_CACHE_VERSION: u32 = 1;

/// The highlighted diffs that are remembered, the last used one first.
#[derive(Debug)]
pub struct HighlightedDiffCache {
    pub entries: VecDeque<HighlightedDiff>,
}

/// What a list of highlighted diffs shows.
pub open spec fn diff_views(diffs: Seq<HighlightedDiff>) -> Seq<HighlightedDiffView> {
    diffs.map_values(|diff: HighlightedDiff| diff@)
}

impl View for HighlightedDiffCache {
    type V = Seq<HighlightedDiffView>;

    open spec fn view(&self) -> Seq<HighlightedDiffView> {
        diff_views(self.entries@)
    }
}

/// No entry is still loading, and there are no more entries than the cache
/// holds.
pub open spec fn valid_cache(entries: Seq<HighlightedDiffView>) -> bool {
    &&& entries.len() <= HIGHLIGHTED_DIFF_CACHE_CAPACITY
    &&& forall|i: int| 0 <= i < entries.len() ==> !((#[trigger] entries[i]).status is Loading)
}

/// No two entries have the same key.
pub open spec fn unique_keys(entries: Seq<HighlightedDiffView>) -> bool {
    forall|i: int, j: int|
        0 <= i < j < entries.len() ==> (#[trigger] entries[i]).key != (#[trigger] entries[j]).key
}

/// The first entry from `i` on that has the key.
pub open spec fn find_key(entries: Seq<HighlightedDiffView>, key: KeyView, i: int) -> Option<int>
    decreases entries.len() - i,
{
    if i < 0 || i >= entries.len() {
        None
    } else if entries[i].key == key {
        Some(i)
    } else {
        find_key(entries, key, i + 1)
    }
}

pub proof fn lemma_find_key(entries: Seq<HighlightedDiffView>, key: KeyView, i: int)
    requires
        0 <= i <= entries.len(),
    ensures
        match find_key(entries, key, i) {
            Some(p) => i <= p < entries.len() && entries[p].key == key && forall|j: int|
                i <= j < p ==> (#[trigger] entries[j]).key != key,
            None => forall|j: int| i <= j < entries.len() ==> (#[trigger] entries[j]).key != key,
        },
    decreases entries.len() - i,
{
    if i < entries.len() && entries[i].key != key {
        lemma_find_key(entries, key, i + 1);
    }
}

/// The entries without the first one that has the key.
pub open spec fn without_key(entries: Seq<HighlightedDiffView>, key: KeyView) -> Seq<
    HighlightedDiffView,
> {
    match find_key(entries, key, 0) {
        Some(i) => entries.remove(i),
        None => entries,
    }
}

/// The entries after one was looked up: the one found moves to the front.
pub open spec fn touched(entries: Seq<HighlightedDiffView>, key: KeyView) -> Seq<
    HighlightedDiffView,
> {
    match find_key(entries, key, 0) {
        Some(i) => seq![entries[i]] + entries.remove(i),
        None => entries,
    }
}

/// At most so many leading entries as the cache holds.
pub open spec fn within_capacity(entries: Seq<HighlightedDiffView>) -> Seq<HighlightedDiffView> {
    if entries.len() <= HIGHLIGHTED_DIFF_CACHE_CAPACITY {
        entries
    } else {
        entries.take(HIGHLIGHTED_DIFF_CACHE_CAPACITY as int)
    }
}

/// The entries after one was stored: it takes the place of one with the same
/// key, stands first, and pushes out the last where there is no room.
pub open spec fn stored(entries: Seq<HighlightedDiffView>, diff: HighlightedDiffView) -> Seq<
    HighlightedDiffView,
> {
    if diff.status is Loading {
        entries
    } else {
        within_capacity(seq![diff] + without_key(entries, diff.key))
    }
}

impl HighlightedDiffCache {
    pub fn new() -> (cache: Self)
        ensures
            cache@ == Seq::<HighlightedDiffView>::empty(),
    {
        let cache = HighlightedDiffCache { entries: VecDeque::new() };
        assert(cache@ =~= Seq::<HighlightedDiffView>::empty());
        cache
    }

    fn position(&self, key: &HighlightedDiffKey) -> (position: Option<usize>)
        ensures
            match position {
                Some(i) => find_key(self@, key@, 0) == Some(i as int),
                None => find_key(self@, key@, 0) is None,
            },
            position matches Some(i) ==> i < self.entries@.len(),
    {
        let mut i: usize = 0;
        while i < self.entries.len()
            invariant
                i <= self.entries@.len(),
                find_key(self@, key@, i as int) == find_key(self@, key@, 0),
            decreases self.entries@.len() - i,
        {
            assert(self@[i as int] == self.entries@[i as int]@);
            if self.entries[i].key.same(key) {
                return Some(i);
            }
            i = i + 1;
        }
        None
    }

    /// Copies of all entries.
    pub fn snapshot(&self) -> (entries: Vec<HighlightedDiff>)
        ensures
            diff_views(entries@) == self@,
    {
        let mut entries: Vec<HighlightedDiff> = Vec::new();
        assert(diff_views(entries@) =~= self@.take(0));
        let mut i: usize = 0;
        while i < self.entries.len()
            invariant
                i <= self.entries@.len(),
                diff_views(entries@) == self@.take(i as int),
            decreases self.entries@.len() - i,
        {
            let ghost before = diff_views(entries@);
            entries.push(self.entries[i].clone());
            assert(self@[i as int] == self.entries@[i as int]@);
            assert(diff_views(entries@) =~= before.push(self@[i as int]));
            assert(self@.take(i + 1) =~= self@.take(i as int).push(self@[i as int]));
            i = i + 1;
        }
        assert(self@.take(self.entries@.len() as int) =~= self@);
        entries
    }
}

/// Looks a highlighted diff up; the one found becomes the last used one.
pub fn cached_highlighted_diff(cache: &mut HighlightedDiffCache, key: &HighlightedDiffKey) -> (found:
    Option<HighlightedDiff>)
    ensures
        final(cache)@ == touched(old(cache)@, key@),
        found is Some <==> exists|i: int|
            0 <= i < old(cache)@.len() && (#[trigger] old(cache)@[i]).key == key@,
        found matches Some(diff) ==> diff@.key == key@ && old(cache)@.contains(diff@)
            && final(cache)@[0] == diff@,
        match find_key(old(cache)@, key@, 0) {
            Some(i) => found matches Some(diff) && diff@ == old(cache)@[i],
            None => found is None,
        },
{
    let ghost before = cache@;
    proof {
        lemma_find_key(before, key@, 0);
    }
    let index = match cache.position(key) {
        Some(index) => index,
        None => return None,
    };
    match cache.entries.remove(index) {
        Some(diff) => {
            assert(diff@ == before[index as int]);
            assert(cache@ =~= before.remove(index as int));
            let copy = diff.clone();
            let ghost rest = cache@;
            cache.entries.push_front(diff);
            assert(cache@ =~= seq![diff@] + rest);
            Some(copy)
        },
        None => None,
    }
}

/// Remembers a highlighted diff, unless it is still loading. Returns what is
/// then to be written to the cache file.
pub fn cache_highlighted_diff(cache: &mut HighlightedDiffCache, diff: HighlightedDiff) -> (snapshot:
    Option<Vec<HighlightedDiff>>)
    ensures
        final(cache)@ == stored(old(cache)@, diff@),
        match snapshot {
            Some(entries) => !(diff@.status is Loading) && diff_views(entries@) == final(cache)@,
            None => diff@.status is Loading,
        },
{
    if diff.status.is_loading() {
        return None;
    }
    let ghost before = cache@;
    if let Some(index) = cache.position(&diff.key) {
        let removed = cache.entries.remove(index);
        assert(cache@ =~= before.remove(index as int));
    }
    let ghost rest = cache@;
    assert(rest == without_key(before, diff@.key));
    cache.entries.push_front(diff);
    assert(cache@ =~= seq![diff@] + rest);
    let ghost all = cache@;
    cache.entries.truncate(HIGHLIGHTED_DIFF_CACHE_CAPACITY);
    assert(cache@ =~= within_capacity(all));
    Some(cache.snapshot())
}

/// The contents of the cache file.
#[derive(Debug)]
pub struct HighlightedDiffCacheFile {
    pub version: u32,
    pub entries: Vec<HighlightedDiff>,
}

/// Pairs the entries with the version of the file's format.
pub fn cache_file(entries: Vec<HighlightedDiff>) -> (file: HighlightedDiffCacheFile)
    ensures
        file.version == HIGHLIGHTED_DIFF_CACHE_VERSION,
        file.entries == entries,
{
    HighlightedDiffCacheFile { version: HIGHLIGHTED_DIFF_CACHE_VERSION, entries }
}

/// What is to be written where, once the cache is flushed: nothing without a
/// path or without access to the cache.
pub fn flush_highlighted_diff_cache<P>(path: Option<P>, cache: Option<&HighlightedDiffCache>) -> (write:
    Option<(P, HighlightedDiffCacheFile)>)
    ensures
        write is Some <==> path is Some && cache is Some,
        write matches Some((to, file)) ==> Some(to) == path && file.version
            == HIGHLIGHTED_DIFF_CACHE_VERSION && diff_views(file.entries@) == cache->0@,
{
    match (path, cache) {
        (Some(path), Some(cache)) => Some((path, cache_file(cache.snapshot()))),
        _ => None,
    }
}

/// The entries that are done loading among the first `n`.
pub open spec fn loaded_entries(entries: Seq<HighlightedDiffView>, n: int) -> Seq<
    HighlightedDiffView,
>
    decreases n,
{
    if n <= 0 {
        Seq::empty()
    } else if entries[n - 1].status is Loading {
        loaded_entries(entries, n - 1)
    } else {
        loaded_entries(entries, n - 1).push(entries[n - 1])
    }
}

/// What the cache holds after a cache file was read: nothing without a file or
/// with one of another version, otherwise its first entries that are done
/// loading.
pub open spec fn restored(file: Option<HighlightedDiffCacheFile>) -> Seq<HighlightedDiffView> {
    match file {
        Some(file) => if file.version == HIGHLIGHTED_DIFF_CACHE_VERSION {
            let entries = diff_views(file.entries@);
            within_capacity(loaded_entries(entries, entries.len() as int))
        } else {
            Seq::empty()
        },
        None => Seq::empty(),
    }
}

/// Fills the cache from what its file holds; `None` stands for no file.
pub fn init_highlighted_diff_cache(
    cache: &mut HighlightedDiffCache,
    file: Option<HighlightedDiffCacheFile>,
)
    ensures
        final(cache)@ == restored(file),
{
    cache.entries.clear();
    assert(cache@ =~= Seq::<HighlightedDiffView>::empty());
    if let Some(file) = file {
        if file.version == HIGHLIGHTED_DIFF_CACHE_VERSION {
            let entries = file.entries;
            let ghost views = diff_views(entries@);
            for diff in it: entries
                invariant
                    views == diff_views(it.seq()),
                    cache@ == within_capacity(loaded_entries(views, it.index() as int)),
            {
                assert(views[it.index() as int] == diff@);
                assert(cache@.len() == cache.entries@.len());
                if !diff.status.is_loading() && cache.entries.len()
                    < HIGHLIGHTED_DIFF_CACHE_CAPACITY {
                    let ghost before = cache@;
                    cache.entries.push_back(diff);
                    assert(cache@ =~= before.push(diff@));
                }
                assert(cache@ =~= within_capacity(loaded_entries(views, it.index() + 1)));
            }
        }
    }
}

/// A highlighted diff that was stored is found again, as it was stored.
pub proof fn law_stored_is_found(entries: Seq<HighlightedDiffView>, diff: HighlightedDiffView)
    requires
        !(diff.status is Loading),
    ensures
        find_key(stored(entries, diff), diff.key, 0) == Some(0int),
        stored(entries, diff)[0] == diff,
{
}

/// A diff that is still loading is never stored.
pub proof fn law_loading_is_not_stored(entries: Seq<HighlightedDiffView>, diff: HighlightedDiffView)
    requires
        diff.status is Loading,
    ensures
        stored(entries, diff) == entries,
{
}

/// Storing keeps the cache within its capacity and free of entries that are
/// still loading.
pub proof fn law_store_keeps_valid(entries: Seq<HighlightedDiffView>, diff: HighlightedDiffView)
    requires
        valid_cache(entries),
    ensures
        valid_cache(stored(entries, diff)),
{
    lemma_find_key(entries, diff.key, 0);
    let rest = without_key(entries, diff.key);
    assert forall|i: int| 0 <= i < rest.len() implies !((#[trigger] rest[i]).status is Loading) by {
        match find_key(entries, diff.key, 0) {
            Some(p) => {
                let j = if i < p { i } else { i + 1 };
                assert(rest[i] == entries[j]);
            },
            None => {},
        }
    }
    let result = stored(entries, diff);
    assert forall|i: int| 0 <= i < result.len() implies !((#[trigger] result[i]).status is Loading) by {
        if !(diff.status is Loading) && i > 0 {
            assert(result[i] == rest[i - 1]);
        }
    }
}

/// Looking up keeps the cache within its capacity and free of entries that are
/// still loading.
pub proof fn law_lookup_keeps_valid(entries: Seq<HighlightedDiffView>, key: KeyView)
    requires
        valid_cache(entries),
    ensures
        valid_cache(touched(entries, key)),
{
    lemma_find_key(entries, key, 0);
    if let Some(p) = find_key(entries, key, 0) {
        let result = touched(entries, key);
        assert forall|i: int| 0 <= i < result.len() implies !((#[trigger] result[i]).status is Loading) by {
            let j = if i == 0 { p } else if i <= p { i - 1 } else { i };
            assert(result[i] == entries[j]);
        }
    }
}

/// Whatever a cache file holds, the cache read from it is within its capacity
/// and free of entries that are still loading.
pub proof fn law_restored_is_valid(file: Option<HighlightedDiffCacheFile>)
    ensures
        valid_cache(restored(file)),
{
    if let Some(file) = file {
        let entries = diff_views(file.entries@);
        lemma_loaded_entries(entries, entries.len() as int);
    }
}

proof fn lemma_loaded_entries(entries: Seq<HighlightedDiffView>, n: int)
    requires
        0 <= n <= entries.len(),
    ensures
        forall|i: int|
            0 <= i < loaded_entries(entries, n).len() ==> !((#[trigger] loaded_entries(
                entries,
                n,
            )[i]).status is Loading),
    decreases n,
{
    if n > 0 {
        lemma_loaded_entries(entries, n - 1);
    }
}

proof fn lemma_all_loaded(entries: Seq<HighlightedDiffView>, n: int)
    requires
        0 <= n <= entries.len(),
        forall|i: int| 0 <= i < n ==> !((#[trigger] entries[i]).status is Loading),
    ensures
        loaded_entries(entries, n) == entries.take(n),
    decreases n,
{
    if n > 0 {
        lemma_all_loaded(entries, n - 1);
        assert(entries.take(n) == entries.take(n - 1).push(entries[n - 1]));
    }
}

/// A flushed cache that is read back holds the same entries in the same order.
pub proof fn law_flush_and_restore(entries: Seq<HighlightedDiffView>, file: HighlightedDiffCacheFile)
    requires
        valid_cache(entries),
        file.version == HIGHLIGHTED_DIFF_CACHE_VERSION,
        diff_views(file.entries@) == entries,
    ensures
        restored(Some(file)) == entries,
{
    lemma_all_loaded(entries, entries.len() as int);
    assert(entries.take(entries.len() as int) == entries);
}

/// Looking a diff up loses and gains no entry, and the one found is then the
/// first.
pub proof fn law_lookup_keeps_entries(entries: Seq<HighlightedDiffView>, key: KeyView)
    ensures
        touched(entries, key).to_multiset() == entries.to_multiset(),
        find_key(entries, key, 0) matches Some(i) ==> touched(entries, key)[0] == entries[i]
            && find_key(touched(entries, key), key, 0) == Some(0int),
{
    broadcast use vstd::seq_lib::group_to_multiset_ensures;

    lemma_find_key(entries, key, 0);
    if let Some(p) = find_key(entries, key, 0) {
        let rest = entries.remove(p);
        assert(rest.insert(p, entries[p]) == entries);
        assert(seq![entries[p]] + rest == rest.insert(0, entries[p]));
        vstd::seq_lib::to_multiset_insert(rest, p, entries[p]);
        vstd::seq_lib::to_multiset_insert(rest, 0, entries[p]);
    }
}

/// Storing and looking up keep the keys of the cache different from each other.
pub proof fn law_keys_stay_unique(
    entries: Seq<HighlightedDiffView>,
    diff: HighlightedDiffView,
    key: KeyView,
)
    requires
        unique_keys(entries),
    ensures
        unique_keys(stored(entries, diff)),
        unique_keys(touched(entries, key)),
{
    lemma_find_key(entries, diff.key, 0);
    lemma_find_key(entries, key, 0);
    let rest = without_key(entries, diff.key);
    let result = stored(entries, diff);
    assert forall|i: int, j: int| 0 <= i < j < result.len() implies (#[trigger] result[i]).key != (
    #[trigger] result[j]).key by {
        if !(diff.status is Loading) {
            assert(result[j] == rest[j - 1]);
            match find_key(entries, diff.key, 0) {
                Some(p) => {
                    let b = if j - 1 < p { j - 1 } else { j };
                    assert(rest[j - 1] == entries[b]);
                    if i > 0 {
                        let a = if i - 1 < p { i - 1 } else { i };
                        assert(result[i] == rest[i - 1]);
                        assert(rest[i - 1] == entries[a]);
                    }
                },
                None => {
                    if i > 0 {
                        assert(result[i] == entries[i - 1]);
                    }
                },
            }
        }
    }
    if let Some(p) = find_key(entries, key, 0) {
        let moved = touched(entries, key);
        assert forall|i: int, j: int| 0 <= i < j < moved.len() implies (#[trigger] moved[i]).key
            != (#[trigger] moved[j]).key by {
            let a = if i == 0 { p } else if i <= p { i - 1 } else { i };
            let b = if j <= p { j - 1 } else { j };
            assert(moved[i] == entries[a]);
            assert(moved[j] == entries[b]);
        }
    }
}

/// Storing a diff drops nothing but an entry with the same key and, where the
/// cache is full and has no such entry, the last one.
pub proof fn law_store_keeps_others(
    entries: Seq<HighlightedDiffView>,
    diff: HighlightedDiffView,
    i: int,
)
    requires
        0 <= i < entries.len() <= HIGHLIGHTED_DIFF_CACHE_CAPACITY,
        entries[i].key != diff.key,
        i < HIGHLIGHTED_DIFF_CACHE_CAPACITY - 1 || find_key(entries, diff.key, 0) is Some,
    ensures
        stored(entries, diff).contains(entries[i]),
{
    lemma_find_key(entries, diff.key, 0);
    let rest = without_key(entries, diff.key);
    let result = stored(entries, diff);
    if diff.status is Loading {
        assert(result[i] == entries[i]);
    } else {
        let j = match find_key(entries, diff.key, 0) {
            Some(p) => if i < p { i } else { i - 1 },
            None => i,
        };
        assert(rest[j] == entries[i]);
        assert(result[j + 1] == rest[j]);
    }
}

/// Looking an entry up that is at place `p`, with none of its key before it, moves
/// it to the front; all others stay in their order. Looking up what is not there
/// changes nothing.
pub proof fn law_lookup_moves_entry_to_front(
    entries: Seq<HighlightedDiffView>,
    key: KeyView,
    p: int,
)
    ensures
        (forall|i: int| 0 <= i < entries.len() ==> (#[trigger] entries[i]).key != key) ==> touched(
            entries,
            key,
        ) == entries,
        0 <= p < entries.len() && entries[p].key == key && (forall|i: int|
            0 <= i < p ==> (#[trigger] entries[i]).key != key) ==> touched(entries, key) == seq![
            entries[p],
        ] + entries.take(p) + entries.skip(p + 1),
{
    lemma_find_key(entries, key, 0);
    if 0 <= p < entries.len() && entries[p].key == key && (forall|i: int|
        0 <= i < p ==> (#[trigger] entries[i]).key != key) {
        let found = find_key(entries, key, 0)->0;
        assert(entries[found].key == key);
        assert(found == p);
        assert(touched(entries, key) =~= seq![entries[p]] + entries.take(p) + entries.skip(p + 1));
    }
}

/// A diff that is stored stands first. An entry of its key at place `p`, with none
/// before it, makes way for it; all others follow in their order, up to sixteen
/// entries in all.
pub proof fn law_store_keeps_order(
    entries: Seq<HighlightedDiffView>,
    diff: HighlightedDiffView,
    p: int,
)
    requires
        !(diff.status is Loading),
    ensures
        1 <= stored(entries, diff).len() <= 16,
        (forall|i: int| 0 <= i < entries.len() ==> (#[trigger] entries[i]).key != diff.key)
            ==> stored(entries, diff) == (seq![diff] + entries).take(
            if entries.len() < 16 { entries.len() as int + 1 } else { 16 },
        ),
        0 <= p < entries.len() && entries[p].key == diff.key && (forall|i: int|
            0 <= i < p ==> (#[trigger] entries[i]).key != diff.key) ==> stored(entries, diff) == (
        seq![diff] + entries.take(p) + entries.skip(p + 1)).take(
            if entries.len() <= 16 { entries.len() as int } else { 16 },
        ),
{
    lemma_find_key(entries, diff.key, 0);
    if forall|i: int| 0 <= i < entries.len() ==> (#[trigger] entries[i]).key != diff.key {
        assert(stored(entries, diff) =~= (seq![diff] + entries).take(
            if entries.len() < 16 { entries.len() as int + 1 } else { 16 },
        ));
    }
    if 0 <= p < entries.len() && entries[p].key == diff.key && (forall|i: int|
        0 <= i < p ==> (#[trigger] entries[i]).key != diff.key) {
        let found = find_key(entries, diff.key, 0)->0;
        assert(entries[found].key == diff.key);
        assert(found == p);
        assert(stored(entries, diff) =~= (seq![diff] + entries.take(p) + entries.skip(p + 1)).take(
            if entries.len() <= 16 { entries.len() as int } else { 16 },
        ));
    }
}

/// What is read from a file of the first version are its first sixteen entries that
/// are done loading, in their order; nothing is read from another file.
pub proof fn law_restored_are_loaded_entries(file: HighlightedDiffCacheFile)
    ensures
        restored(None) == Seq::<HighlightedDiffView>::empty(),
        file.version != 1 ==> restored(Some(file)) == Seq::<HighlightedDiffView>::empty(),
        file.version == 1 ==> ({
            let loaded = diff_views(file.entries@).filter(
                |entry: HighlightedDiffView| !(entry.status is Loading),
            );
            restored(Some(file)) == loaded.take(
                if loaded.len() <= 16 { loaded.len() as int } else { 16 },
            )
        }),
{
    let entries = diff_views(file.entries@);
    lemma_loaded_are_filtered(entries, entries.len() as int);
    assert(entries.take(entries.len() as int) == entries);
    let loaded = loaded_entries(entries, entries.len() as int);
    assert(loaded.take(loaded.len() as int) == loaded);
}

proof fn lemma_loaded_are_filtered(entries: Seq<HighlightedDiffView>, n: int)
    requires
        0 <= n <= entries.len(),
    ensures
        loaded_entries(entries, n) == entries.take(n).filter(
            |entry: HighlightedDiffView| !(entry.status is Loading),
        ),
    decreases n,
{
    reveal(Seq::filter);
    if n > 0 {
        lemma_loaded_are_filtered(entries, n - 1);
        assert(entries.take(n).drop_last() == entries.take(n - 1));
        assert(entries.take(n).last() == entries[n - 1]);
    }
}

/// The cache shows its entries in their order.
pub proof fn law_cache_shows_its_entries(cache: HighlightedDiffCache, i: int)
    ensures
        cache@.len() == cache.entries@.len(),
        0 <= i < cache.entries@.len() ==> cache@[i] == cache.entries@[i]@,
{
}

} // verus!
