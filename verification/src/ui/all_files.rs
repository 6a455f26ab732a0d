//! The all-files screen: its sort and filter modes, its selection, and the
//! filtered, sorted listing it shows.
use vstd::prelude::*;
use crate::models::FileEntry;
use crate::analyzer::rules::{ClassificationRules, category_in};
use crate::text::{lowercase, seq_contains, to_lowercase, str_contains, chars_of};
use crate::sorting::{
    IntKey,
    TextKey,
    lex_lt,
    comes_before,
    increasing,
    stable_order,
    pick,
    lemma_arranged,
};
use crate::clock::unix_now;

verus! {

/// Sort order of the all-files screen.
#[derive(Debug, Clone, Copy, PartialEq, Eq, Structural)]
pub enum SortMode {
    SizeDesc,
    SizeAsc,
    NameAsc,
    NameDesc,
    DateDesc,
    DateAsc,
}

/// Which entries the all-files screen shows.
#[derive(Debug, Clone, Copy, PartialEq, Eq, Structural)]
pub enum FilterMode {
    All,
    SafeOnly,
    LargeOnly,
    Selected,
}

/// Entries above this many bytes (50 MiB) pass the large-files filter.
pub const LARGE_ONLY_BYTES: u64 = 52428800;

/// The state of the all-files screen.
#[derive(Debug, Clone)]
pub struct AllFilesState {
    /// The selected row of the listing, if any.
    pub selected: Option<usize>,
    pub sort_mode: SortMode,
    pub filter_mode: FilterMode,
    pub search_query: String,
    pub search_active: bool,
    pub scroll_offset: usize,
}

impl Default for AllFilesState {
    fn default() -> (s: Self)
        ensures
            s.selected is None,
            s.sort_mode == SortMode::SizeDesc,
            s.filter_mode == FilterMode::All,
            s.search_query@.len() == 0,
            !s.search_active,
            s.scroll_offset == 0,
    {
        AllFilesState {
            selected: None,
            sort_mode: SortMode::SizeDesc,
            filter_mode: FilterMode::All,
            search_query: String::new(),
            search_active: false,
            scroll_offset: 0,
        }
    }
}

/// The selection after moving down a list of `total` rows: the next row, the
/// first row after the last or where nothing was selected; no change in an
/// empty list.
pub open spec fn next_index(selected: Option<usize>, total: usize) -> Option<usize> {
    if total == 0 {
        selected
    } else {
        match selected {
            Some(i) => if i >= total - 1 {
                Some(0usize)
            } else {
                Some((i + 1) as usize)
            },
            None => Some(0usize),
        }
    }
}

/// The selection after moving up a list of `total` rows: the previous row,
/// the last row before the first, the first row where nothing was selected;
/// no change in an empty list.
pub open spec fn prev_index(selected: Option<usize>, total: usize) -> Option<usize> {
    if total == 0 {
        selected
    } else {
        match selected {
            Some(i) => if i == 0 {
                Some((total - 1) as usize)
            } else {
                Some((i - 1) as usize)
            },
            None => Some(0usize),
        }
    }
}

/// The sort order after `m`, in the order the modes are declared, wrapping.
pub open spec fn next_sort_mode(m: SortMode) -> SortMode {
    match m {
        SortMode::SizeDesc => SortMode::SizeAsc,
        SortMode::SizeAsc => SortMode::NameAsc,
        SortMode::NameAsc => SortMode::NameDesc,
        SortMode::NameDesc => SortMode::DateDesc,
        SortMode::DateDesc => SortMode::DateAsc,
        SortMode::DateAsc => SortMode::SizeDesc,
    }
}

/// The filter after `m`, in the order the modes are declared, wrapping.
pub open spec fn next_filter_mode(m: FilterMode) -> FilterMode {
    match m {
        FilterMode::All => FilterMode::SafeOnly,
        FilterMode::SafeOnly => FilterMode::LargeOnly,
        FilterMode::LargeOnly => FilterMode::Selected,
        FilterMode::Selected => FilterMode::All,
    }
}

/// The label of a sort order.
pub open spec fn sort_mode_label(m: SortMode) -> Seq<char> {
    match m {
        SortMode::SizeDesc => "Size ↓"@,
        SortMode::SizeAsc => "Size ↑"@,
        SortMode::NameAsc => "Name A-Z"@,
        SortMode::NameDesc => "Name Z-A"@,
        SortMode::DateDesc => "Date ↓"@,
        SortMode::DateAsc => "Date ↑"@,
    }
}

/// The label of a filter.
pub open spec fn filter_mode_label(m: FilterMode) -> Seq<char> {
    match m {
        FilterMode::All => "All Files"@,
        FilterMode::SafeOnly => "Safe Only"@,
        FilterMode::LargeOnly => "Large (>50MB)"@,
        FilterMode::Selected => "Selected"@,
    }
}

impl AllFilesState {
    /// Moves the selection down a list of `total` rows.
    pub fn next(&mut self, total: usize)
        ensures
            final(self).selected == next_index(old(self).selected, total),
            final(self).sort_mode == old(self).sort_mode,
            final(self).filter_mode == old(self).filter_mode,
            final(self).search_query == old(self).search_query,
            final(self).search_active == old(self).search_active,
            final(self).scroll_offset == old(self).scroll_offset,
    {
        if total == 0 {
            return;
        }
        let i = match self.selected {
            Some(i) => if i >= total - 1 {
                0
            } else {
                i + 1
            },
            None => 0,
        };
        self.selected = Some(i);
    }

    /// Moves the selection up a list of `total` rows.
    pub fn previous(&mut self, total: usize)
        ensures
            final(self).selected == prev_index(old(self).selected, total),
            final(self).sort_mode == old(self).sort_mode,
            final(self).filter_mode == old(self).filter_mode,
            final(self).search_query == old(self).search_query,
            final(self).search_active == old(self).search_active,
            final(self).scroll_offset == old(self).scroll_offset,
    {
        if total == 0 {
            return;
        }
        let i = match self.selected {
            Some(i) => if i == 0 {
                total - 1
            } else {
                i - 1
            },
            None => 0,
        };
        self.selected = Some(i);
    }

    /// Moves on to the next sort order.
    pub fn cycle_sort(&mut self)
        ensures
            final(self).sort_mode == next_sort_mode(old(self).sort_mode),
            final(self).selected == old(self).selected,
            final(self).filter_mode == old(self).filter_mode,
            final(self).search_query == old(self).search_query,
            final(self).search_active == old(self).search_active,
            final(self).scroll_offset == old(self).scroll_offset,
    {
        self.sort_mode = match self.sort_mode {
            SortMode::SizeDesc => SortMode::SizeAsc,
            SortMode::SizeAsc => SortMode::NameAsc,
            SortMode::NameAsc => SortMode::NameDesc,
            SortMode::NameDesc => SortMode::DateDesc,
            SortMode::DateDesc => SortMode::DateAsc,
            SortMode::DateAsc => SortMode::SizeDesc,
        };
    }

    /// Moves on to the next filter.
    pub fn cycle_filter(&mut self)
        ensures
            final(self).filter_mode == next_filter_mode(old(self).filter_mode),
            final(self).selected == old(self).selected,
            final(self).sort_mode == old(self).sort_mode,
            final(self).search_query == old(self).search_query,
            final(self).search_active == old(self).search_active,
            final(self).scroll_offset == old(self).scroll_offset,
    {
        self.filter_mode = match self.filter_mode {
            FilterMode::All => FilterMode::SafeOnly,
            FilterMode::SafeOnly => FilterMode::LargeOnly,
            FilterMode::LargeOnly => FilterMode::Selected,
            FilterMode::Selected => FilterMode::All,
        };
    }

    /// The label of the current sort order.
    pub fn sort_mode_name(&self) -> (s: &'static str)
        ensures
            s@ == sort_mode_label(self.sort_mode),
    {
        match self.sort_mode {
            SortMode::SizeDesc => "Size ↓",
            SortMode::SizeAsc => "Size ↑",
            SortMode::NameAsc => "Name A-Z",
            SortMode::NameDesc => "Name Z-A",
            SortMode::DateDesc => "Date ↓",
            SortMode::DateAsc => "Date ↑",
        }
    }

    /// The label of the current filter.
    pub fn filter_mode_name(&self) -> (s: &'static str)
        ensures
            s@ == filter_mode_label(self.filter_mode),
    {
        match self.filter_mode {
            FilterMode::All => "All Files",
            FilterMode::SafeOnly => "Safe Only",
            FilterMode::LargeOnly => "Large (>50MB)",
            FilterMode::Selected => "Selected",
        }
    }
}

/// Moving down and then up a list, or up and then down, comes back to the
/// row that was selected: down goes to row `(i + 1) % total` and up to row
/// `(i + total - 1) % total`.
pub proof fn law_next_previous_inverse(i: usize, total: usize)
    requires
        i < total,
    ensures
        next_index(Some(i), total) == Some(((i + 1) % (total as int)) as usize),
        prev_index(Some(i), total) == Some(((i + total - 1) % (total as int)) as usize),
        prev_index(next_index(Some(i), total), total) == Some(i),
        next_index(prev_index(Some(i), total), total) == Some(i),
{
    if i + 1 == total {
        vstd::arithmetic::div_mod::lemma_mod_self_0(total as int);
    } else {
        vstd::arithmetic::div_mod::lemma_small_mod((i + 1) as nat, total as nat);
    }
    if i == 0 {
        vstd::arithmetic::div_mod::lemma_small_mod((total - 1) as nat, total as nat);
    } else {
        vstd::arithmetic::div_mod::lemma_mod_add_multiples_vanish((i - 1) as int, total as int);
        vstd::arithmetic::div_mod::lemma_small_mod((i - 1) as nat, total as nat);
    }
}

/// Cycling the filter four times comes back to where it started, and no
/// fewer cycles do.
pub proof fn law_filter_cycle_period(m: FilterMode)
    ensures
        next_filter_mode(next_filter_mode(next_filter_mode(next_filter_mode(m)))) == m,
        next_filter_mode(m) != m,
        next_filter_mode(next_filter_mode(m)) != m,
        next_filter_mode(next_filter_mode(next_filter_mode(m))) != m,
{
}

/// Whether `x` occurs in `v`.
pub fn index_listed(v: &Vec<usize>, x: usize) -> (b: bool)
    ensures
        b == v@.contains(x),
{
    let mut i: usize = 0;
    while i < v.len()
        invariant
            i <= v@.len(),
            forall|j: int| 0 <= j < i ==> v@[j] != x,
        decreases v@.len() - i,
    {
        if v[i] == x {
            return true;
        }
        i = i + 1;
    }
    false
}

/// Entry `e`, at position `i` of the scan, passes the filter `mode`: every
/// entry, the safe non-system ones (by the category of the entry alone at
/// time `now`), the ones over 50 MiB, or the marked ones.
pub open spec fn passes_filter(e: FileEntry, i: int, mode: FilterMode, marked: Seq<usize>, now: i64) -> bool {
    match mode {
        FilterMode::All => true,
        FilterMode::SafeOnly => category_in(e, seq![], now).safe() && !e.is_system,
        FilterMode::LargeOnly => e.size > LARGE_ONLY_BYTES,
        FilterMode::Selected => marked.contains(i as usize),
    }
}

/// Entry `e` matches the search `query`: an empty query matches every entry,
/// another matches where its lowercase form occurs in the lowercase name or
/// path.
pub open spec fn passes_search(e: FileEntry, query: Seq<char>) -> bool {
    query.len() == 0 || seq_contains(lowercase(e.name@), lowercase(query)) || seq_contains(
        lowercase(e.path@),
        lowercase(query),
    )
}

/// The all-files screen shows entry `i` of `es`.
pub open spec fn shown(es: Seq<FileEntry>, i: int, state: AllFilesState, marked: Seq<usize>, now: i64) -> bool {
    passes_filter(es[i], i, state.filter_mode, marked, now) && passes_search(es[i], state.search_query@)
}

/// The order key of sort mode `m` between positions `i` and `j` of `es`: by
/// the sizes `sizes` given for the positions, by lowercase name, or by
/// modification time.
pub open spec fn mode_key_lt(m: SortMode, es: Seq<FileEntry>, sizes: Seq<u64>, i: int, j: int) -> bool {
    match m {
        SortMode::SizeDesc | SortMode::SizeAsc => sizes[i] < sizes[j],
        SortMode::NameAsc | SortMode::NameDesc => lex_lt(lowercase(es[i].name@), lowercase(es[j].name@)),
        SortMode::DateDesc | SortMode::DateAsc => es[i].modified < es[j].modified,
    }
}

/// Sort mode `m` puts larger keys first.
pub open spec fn mode_descending(m: SortMode) -> bool {
    m == SortMode::SizeDesc || m == SortMode::NameDesc || m == SortMode::DateDesc
}

/// Under sort mode `m`, position `i` of `es` comes before position `j`: by
/// key, in the mode's direction, ties in scan order.
pub open spec fn mode_before(m: SortMode, es: Seq<FileEntry>, sizes: Seq<u64>, i: int, j: int) -> bool {
    if mode_descending(m) {
        mode_key_lt(m, es, sizes, j, i) || (!mode_key_lt(m, es, sizes, i, j) && i < j)
    } else {
        mode_key_lt(m, es, sizes, i, j) || (!mode_key_lt(m, es, sizes, j, i) && i < j)
    }
}

/// `r` lists, once each, exactly the positions of `es` in `keep`, in the
/// order of sort mode `m` with sizes `sizes`.
pub open spec fn is_sorted_listing(
    r: Seq<usize>,
    es: Seq<FileEntry>,
    sizes: Seq<u64>,
    keep: Set<int>,
    m: SortMode,
) -> bool {
    &&& forall|a: int| 0 <= a < r.len() ==> #[trigger] r[a] < es.len() && keep.contains(r[a] as int)
    &&& forall|i: int| 0 <= i < es.len() && keep.contains(i) ==> r.contains(i as usize)
    &&& forall|a: int, b: int| 0 <= a < r.len() && 0 <= b < r.len() && a != b ==> r[a] != r[b]
    &&& forall|a: int, b: int| 0 <= a < b < r.len() ==> mode_before(m, es, sizes, r[a] as int, r[b] as int)
}

/// The sizes of the entries, in order.
pub open spec fn plain_sizes(es: Seq<FileEntry>) -> Seq<u64> {
    es.map_values(|e: FileEntry| e.size)
}

/// The sizes of the entries, in order.
pub fn sizes_of(entries: &[FileEntry]) -> (sizes: Vec<u64>)
    ensures
        sizes@ == plain_sizes(entries@),
{
    let mut sizes: Vec<u64> = Vec::new();
    let mut i: usize = 0;
    while i < entries.len()
        invariant
            i <= entries@.len(),
            sizes@ == plain_sizes(entries@).take(i as int),
        decreases entries@.len() - i,
    {
        sizes.push(entries[i].size);
        assert(sizes@ =~= plain_sizes(entries@).take(i + 1));
        i = i + 1;
    }
    assert(sizes@ =~= plain_sizes(entries@));
    sizes
}

/// The positions the all-files screen shows.
pub open spec fn shown_set(es: Seq<FileEntry>, state: AllFilesState, marked: Seq<usize>, now: i64) -> Set<int> {
    Set::new(|i: int| 0 <= i < es.len() && shown(es, i, state, marked, now))
}

/// The positions `ks` (increasing, each below `es.len()`) in the order of
/// sort mode `m`, position `i` having size `sizes[i]`.
pub fn order_positions(es: &[FileEntry], sizes: &Vec<u64>, ks: &Vec<usize>, m: SortMode) -> (r: Vec<usize>)
    requires
        increasing(ks@),
        sizes@.len() == es@.len(),
        forall|p: int| 0 <= p < ks@.len() ==> #[trigger] ks@[p] < es@.len(),
    ensures
        r@.len() == ks@.len(),
        forall|a: int| 0 <= a < r@.len() ==> ks@.contains(#[trigger] r@[a]),
        forall|p: int| 0 <= p < ks@.len() ==> r@.contains(#[trigger] ks@[p]),
        forall|a: int, b: int| 0 <= a < r@.len() && 0 <= b < r@.len() && a != b ==> r@[a] != r@[b],
        forall|a: int, b: int|
            0 <= a < b < r@.len() ==> mode_before(m, es@, sizes@, r@[a] as int, r@[b] as int),
{
    let descending = match m {
        SortMode::SizeDesc | SortMode::NameDesc | SortMode::DateDesc => true,
        _ => false,
    };
    match m {
        SortMode::NameAsc | SortMode::NameDesc => {
            let mut keys: Vec<TextKey> = Vec::new();
            let mut p: usize = 0;
            while p < ks.len()
                invariant
                    p <= ks@.len(),
                    forall|q: int| 0 <= q < ks@.len() ==> #[trigger] ks@[q] < es@.len(),
                    keys@.len() == p,
                    forall|q: int|
                        0 <= q < p ==> (#[trigger] keys@[q]).0@ == lowercase(es@[ks@[q] as int].name@),
                decreases ks@.len() - p,
            {
                let lower = to_lowercase(es[ks[p]].name.as_str());
                keys.push(TextKey(chars_of(lower.as_str())));
                p = p + 1;
            }
            let order = stable_order(&keys, descending);
            let r = pick(ks, &order);
            proof {
                lemma_arranged(ks@, keys@, order@, r@, descending);
                assert forall|a: int, b: int| 0 <= a < b < r@.len() implies mode_before(
                    m,
                    es@,
                    sizes@,
                    r@[a] as int,
                    r@[b] as int,
                ) by {
                    assert(comes_before(
                        keys@[order@[a] as int],
                        r@[a] as int,
                        keys@[order@[b] as int],
                        r@[b] as int,
                        descending,
                    ));
                    assert(keys@[order@[a] as int].0@ == lowercase(es@[r@[a] as int].name@));
                    assert(keys@[order@[b] as int].0@ == lowercase(es@[r@[b] as int].name@));
                }
            }
            r
        },
        _ => {
            let by_size = match m {
                SortMode::SizeDesc | SortMode::SizeAsc => true,
                _ => false,
            };
            let mut keys: Vec<IntKey> = Vec::new();
            let mut p: usize = 0;
            while p < ks.len()
                invariant
                    p <= ks@.len(),
                    forall|q: int| 0 <= q < ks@.len() ==> #[trigger] ks@[q] < es@.len(),
                    sizes@.len() == es@.len(),
                    keys@.len() == p,
                    forall|q: int|
                        0 <= q < p ==> (#[trigger] keys@[q]).0 == if by_size {
                            sizes@[ks@[q] as int] as int
                        } else {
                            es@[ks@[q] as int].modified as int
                        },
                decreases ks@.len() - p,
            {
                let e = &es[ks[p]];
                let k: i128 = if by_size {
                    sizes[ks[p]] as i128
                } else {
                    e.modified as i128
                };
                keys.push(IntKey(k));
                p = p + 1;
            }
            let order = stable_order(&keys, descending);
            let r = pick(ks, &order);
            proof {
                lemma_arranged(ks@, keys@, order@, r@, descending);
                assert forall|a: int, b: int| 0 <= a < b < r@.len() implies mode_before(
                    m,
                    es@,
                    sizes@,
                    r@[a] as int,
                    r@[b] as int,
                ) by {
                    assert(comes_before(
                        keys@[order@[a] as int],
                        r@[a] as int,
                        keys@[order@[b] as int],
                        r@[b] as int,
                        descending,
                    ));
                    assert(r@[a] == ks@[order@[a] as int]);
                    assert(r@[b] == ks@[order@[b] as int]);
                }
            }
            r
        },
    }
}

/// The positions of the entries the all-files screen shows at time `now`,
/// in the screen's sort order.
pub fn get_filtered_entries_at(
    entries: &[FileEntry],
    state: &AllFilesState,
    marked: &Vec<usize>,
    now: i64,
) -> (r: Vec<usize>)
    ensures
        is_sorted_listing(
            r@,
            entries@,
            plain_sizes(entries@),
            shown_set(entries@, *state, marked@, now),
            state.sort_mode,
        ),
{
    let query = to_lowercase(state.search_query.as_str());
    let no_query = state.search_query.as_str().is_empty();
    let none: Vec<FileEntry> = Vec::new();
    proof {
        assert(none@ =~= Seq::<FileEntry>::empty());
    }
    let mut ks: Vec<usize> = Vec::new();
    let mut i: usize = 0;
    while i < entries.len()
        invariant
            i <= entries@.len(),
            none@ == Seq::<FileEntry>::empty(),
            query@ == lowercase(state.search_query@),
            no_query == (state.search_query@.len() == 0),
            increasing(ks@),
            forall|p: int|
                0 <= p < ks@.len() ==> #[trigger] ks@[p] < i && shown(
                    entries@,
                    ks@[p] as int,
                    *state,
                    marked@,
                    now,
                ),
            forall|j: int|
                0 <= j < i && shown(entries@, j, *state, marked@, now) ==> ks@.contains(j as usize),
        decreases entries@.len() - i,
    {
        let e = &entries[i];
        let pass_filter = match state.filter_mode {
            FilterMode::All => true,
            FilterMode::SafeOnly => {
                let c = ClassificationRules::classify_at(e, none.as_slice(), now);
                c.is_safe_to_delete() && !e.is_system
            },
            FilterMode::LargeOnly => e.size > LARGE_ONLY_BYTES,
            FilterMode::Selected => index_listed(marked, i),
        };
        let pass_search = if no_query {
            true
        } else {
            let name = to_lowercase(e.name.as_str());
            if str_contains(name.as_str(), query.as_str()) {
                true
            } else {
                let path = to_lowercase(e.path.as_str());
                str_contains(path.as_str(), query.as_str())
            }
        };
        let ghost old_ks = ks@;
        if pass_filter && pass_search {
            ks.push(i);
            proof {
                assert(ks@[old_ks.len() as int] == i);
            }
        }
        proof {
            assert(shown(entries@, i as int, *state, marked@, now) == (pass_filter && pass_search));
            assert forall|j: int|
                0 <= j < i + 1 && shown(entries@, j, *state, marked@, now) implies ks@.contains(
                j as usize,
            ) by {
                if j < i {
                    assert(old_ks.contains(j as usize));
                    let q = choose|q: int| 0 <= q < old_ks.len() && old_ks[q] == j as usize;
                    assert(ks@[q] == j as usize);
                } else {
                    assert(ks@[old_ks.len() as int] == i);
                }
            }
        }
        i = i + 1;
    }
    let sizes = sizes_of(entries);
    let r = order_positions(entries, &sizes, &ks, state.sort_mode);
    proof {
        let keep = shown_set(entries@, *state, marked@, now);
        assert forall|a: int| 0 <= a < r@.len() implies #[trigger] r@[a] < entries@.len()
            && keep.contains(r@[a] as int) by {
            assert(ks@.contains(r@[a]));
            let p = choose|p: int| 0 <= p < ks@.len() && ks@[p] == r@[a];
            assert(shown(entries@, ks@[p] as int, *state, marked@, now));
        }
        assert forall|j: int| 0 <= j < entries@.len() && keep.contains(j) implies r@.contains(
            j as usize,
        ) by {
            assert(ks@.contains(j as usize));
            let p = choose|p: int| 0 <= p < ks@.len() && ks@[p] == j as usize;
            assert(r@.contains(ks@[p]));
        }
    }
    r
}

/// The positions of the entries the all-files screen shows, in its sort
/// order, with the categories judged at the time the clock is read.
pub fn get_filtered_entries(entries: &[FileEntry], state: &AllFilesState, marked: &Vec<usize>) -> (r:
    Vec<usize>)
    ensures
        exists|now: i64|
            is_sorted_listing(
                r@,
                entries@,
                plain_sizes(entries@),
                shown_set(entries@, *state, marked@, now),
                state.sort_mode,
            ),
{
    let now = unix_now();
    get_filtered_entries_at(entries, state, marked, now)
}

} // verus!
