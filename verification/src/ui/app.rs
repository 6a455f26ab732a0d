//! The state of the terminal interface and the operations on it that do not
//! touch the terminal or the disk: what is listed where, where the browser
//! is, and which home option scans which path.
use vstd::prelude::*;
use crate::models::{FileEntry, ScanProgress, ScanResult, StorageInfo};
use crate::analyzer::category::FileCategory;
use crate::analyzer::analysis::CategoryGroup;
use crate::paths::{
    path_parent,
    path_starts_with,
    path_eq,
    opt_view,
    parent_of,
    starts_with_path,
    same_path,
};
use crate::text::{lowercase, seq_contains, to_lowercase, str_contains, str_starts_with, seq_starts_with};
use crate::ui::types::{
    AppState,
    ViewMode,
    ScanOption,
    BrowseSortMode,
    HomeMenuState,
    ScanProgressSnapshot,
    home_options,
};
use crate::ui::all_files::{AllFilesState, SortMode, is_sorted_listing, order_positions};
use crate::ui::mouse::Rect;
use crate::sorting::increasing;
use crate::analyzer::analysis::{size_sum, lemma_take_all};

verus! {

/// The view that switching from `v` shows.
pub open spec fn other_view(v: ViewMode) -> ViewMode {
    match v {
        ViewMode::AllFiles => ViewMode::Categories,
        ViewMode::Categories => ViewMode::AllFiles,
    }
}

/// Switching the view twice comes back to the view shown before.
pub proof fn law_switch_view_twice(v: ViewMode)
    ensures
        other_view(other_view(v)) == v,
        other_view(v) != v,
{
}

/// Moving the selection down and then up the shown list (the browser's rows
/// or the categories) comes back to the selected row: with `n` rows and row
/// `k` selected, down selects row `(k + 1) % n` and up then selects `k`.
pub proof fn law_next_then_previous_item(a0: App, a1: App, a2: App)
    requires
        next_item_step(a0, a1),
        previous_item_step(a1, a2),
        a0.current_view == ViewMode::AllFiles ==> (a0.list_selected matches Some(k) && k < browse_count(a0)),
        a0.current_view == ViewMode::Categories ==> (a0.category_selected matches Some(k) && k
            < a0.categories@.len()),
    ensures
        a2 == a0,
        a0.current_view == ViewMode::AllFiles ==> a1.list_selected == Some(
            ((a0.list_selected.unwrap() + 1) % (browse_count(a0) as int)) as usize,
        ),
        a0.current_view == ViewMode::Categories ==> a1.category_selected == Some(
            ((a0.category_selected.unwrap() + 1) % (a0.categories@.len() as int)) as usize,
        ),
{
    match a0.current_view {
        ViewMode::AllFiles => {
            let k = a0.list_selected.unwrap();
            lemma_browse_count_bounded(a0, scan_entries(a0).len());
            match a0.scan_result {
                Some(r) => {
                    assert(r.entries@.len() == r.entries.len());
                },
                None => {},
            }
            lemma_browse_count_same(a0, a1, scan_entries(a0).len());
            crate::ui::all_files::law_next_previous_inverse(k, browse_count(a0) as usize);
        },
        ViewMode::Categories => {
            let k = a0.category_selected.unwrap();
            assert(a0.categories@.len() == a0.categories.len());
            crate::ui::all_files::law_next_previous_inverse(k, a0.categories@.len() as usize);
        },
    }
}

proof fn lemma_browse_count_bounded(a: App, n: nat)
    ensures
        browse_count_upto(a, n) <= n,
    decreases n,
{
    if n > 0 {
        lemma_browse_count_bounded(a, (n - 1) as nat);
    }
}

proof fn lemma_browse_count_same(a: App, b: App, n: nat)
    requires
        a.scan_result == b.scan_result,
        a.current_path == b.current_path,
        a.show_hidden == b.show_hidden,
        a.browse_search_query == b.browse_search_query,
    ensures
        browse_count_upto(a, n) == browse_count_upto(b, n),
    decreases n,
{
    if n > 0 {
        lemma_browse_count_same(a, b, (n - 1) as nat);
    }
}

/// The whole state of the terminal interface.
pub struct App {
    pub state: AppState,
    pub scan_result: Option<ScanResult>,
    pub scan_path: String,
    pub current_path: String,
    /// The folders the browser came from, the latest last.
    pub navigation_stack: Vec<String>,
    /// The selected row of the file browser, if any.
    pub list_selected: Option<usize>,
    /// The selected row of the category list, if any.
    pub category_selected: Option<usize>,
    pub selected_category: Option<FileCategory>,
    pub categories: Vec<CategoryGroup>,
    /// Positions in the scan's entries of the entries marked for deletion.
    pub marked_for_deletion: Vec<usize>,
    pub recommendations: Vec<String>,
    pub status_message: String,
    pub show_help: bool,
    pub current_view: ViewMode,
    pub scan_progress: ScanProgress,
    pub system_warning_message: String,
    pub pending_system_deletions: Vec<usize>,
    pub show_hidden: bool,
    pub last_progress_snapshot: ScanProgressSnapshot,
    pub storage_info: StorageInfo,
    pub home_menu: HomeMenuState,
    /// The path being typed, with the cursor counting characters.
    pub path_input: Vec<char>,
    pub path_cursor: usize,
    pub scan_scroll_offset: usize,
    pub frame_count: u32,
    pub all_files_state: AllFilesState,
    pub search_active: bool,
    pub search_query: String,
    pub last_list_area: Option<Rect>,
    pub browse_sort_mode: BrowseSortMode,
    pub browse_search_active: bool,
    pub browse_search_query: String,
}

/// What `switch_view` does.
pub open spec fn switch_view_step(old_app: App, new_app: App) -> bool {
    &&& new_app.current_view == other_view(old_app.current_view)
    &&& new_app.status_message@ == (if new_app.current_view == ViewMode::AllFiles {
        "File Browser"@
    } else {
        "Categories · Enter to drill down"@
    })
    &&& new_app == (App {
        current_view: new_app.current_view,
        status_message: new_app.status_message,
        ..old_app
    })
}

/// What `toggle_hidden` does.
pub open spec fn toggle_hidden_step(old_app: App, new_app: App) -> bool {
    &&& new_app.show_hidden == !old_app.show_hidden
    &&& new_app.status_message@ == (if new_app.show_hidden {
        "Showing hidden files"@
    } else {
        "Hidden files filtered"@
    })
    &&& new_app == (App {
        show_hidden: new_app.show_hidden,
        status_message: new_app.status_message,
        ..old_app
    })
}

impl App {
    /// A fresh interface on its home screen, browsing from `scan_path`, with
    /// `storage_info` describing the filesystem that holds it.
    pub fn new(scan_path: String, storage_info: StorageInfo) -> (a: Self)
        ensures
            a.state == AppState::Home,
            a.scan_result is None,
            a.scan_path == scan_path,
            a.current_path == scan_path,
            a.navigation_stack@.len() == 0,
            a.list_selected is None,
            a.category_selected is None,
            a.selected_category is None,
            a.categories@.len() == 0,
            a.marked_for_deletion@.len() == 0,
            a.recommendations@.len() == 0,
            a.status_message@.len() == 0,
            !a.show_help,
            a.current_view == ViewMode::AllFiles,
            a.scan_progress.entries@.len() == 0,
            !a.scan_progress.is_complete,
            a.system_warning_message@.len() == 0,
            a.pending_system_deletions@.len() == 0,
            a.show_hidden,
            a.storage_info == storage_info,
            a.home_menu.options@ == home_options(),
            a.home_menu.selected_option == 1,
            a.home_menu.custom_path@.len() == 0,
            a.home_menu.path_suggestions@.len() == 0,
            a.home_menu.min_size_mb == 1,
            a.home_menu.max_depth == 0,
            a.home_menu.include_hidden,
            a.home_menu.storage_info == storage_info,
            a.path_input@.len() == 0,
            a.path_cursor == 0,
            a.scan_scroll_offset == 0,
            a.frame_count == 0,
            a.all_files_state.selected is None,
            a.all_files_state.sort_mode == SortMode::SizeDesc,
            a.all_files_state.search_query@.len() == 0,
            !a.all_files_state.search_active,
            !a.search_active,
            a.search_query@.len() == 0,
            a.last_list_area is None,
            a.browse_sort_mode == BrowseSortMode::SizeDesc,
            !a.browse_search_active,
            a.browse_search_query@.len() == 0,
    {
        let mut home_menu = HomeMenuState::default();
        home_menu.storage_info = storage_info;
        let current_path = scan_path.clone();
        App {
            state: AppState::Home,
            scan_result: None,
            scan_path,
            current_path,
            navigation_stack: Vec::new(),
            list_selected: None,
            category_selected: None,
            selected_category: None,
            categories: Vec::new(),
            marked_for_deletion: Vec::new(),
            recommendations: Vec::new(),
            status_message: String::new(),
            show_help: false,
            current_view: ViewMode::AllFiles,
            scan_progress: ScanProgress::default(),
            system_warning_message: String::new(),
            pending_system_deletions: Vec::new(),
            show_hidden: true,
            last_progress_snapshot: ScanProgressSnapshot::default(),
            storage_info,
            home_menu,
            path_input: Vec::new(),
            path_cursor: 0,
            scan_scroll_offset: 0,
            frame_count: 0,
            all_files_state: AllFilesState::default(),
            search_active: false,
            search_query: String::new(),
            last_list_area: None,
            browse_sort_mode: BrowseSortMode::SizeDesc,
            browse_search_active: false,
            browse_search_query: String::new(),
        }
    }

    /// Switches between the file browser and the category list and says
    /// which is shown.
    pub fn switch_view(&mut self)
        ensures
            switch_view_step(*old(self), *final(self)),
    {
        self.current_view = match self.current_view {
            ViewMode::AllFiles => ViewMode::Categories,
            ViewMode::Categories => ViewMode::AllFiles,
        };
        self.status_message = match self.current_view {
            ViewMode::AllFiles => String::from_str("File Browser"),
            ViewMode::Categories => String::from_str("Categories · Enter to drill down"),
        };
    }

    /// Shows or hides hidden entries and says which.
    pub fn toggle_hidden(&mut self)
        ensures
            toggle_hidden_step(*old(self), *final(self)),
    {
        self.show_hidden = !self.show_hidden;
        self.status_message = if self.show_hidden {
            String::from_str("Showing hidden files")
        } else {
            String::from_str("Hidden files filtered")
        };
    }
}

/// The entries of the scan the interface holds; none before a scan.
pub open spec fn scan_entries(a: App) -> Seq<FileEntry> {
    match a.scan_result {
        Some(r) => r.entries@,
        None => Seq::empty(),
    }
}

/// The total size of the first `n` entries that lie strictly under `folder`.
pub open spec fn folder_total_upto(es: Seq<FileEntry>, folder: Seq<char>, n: nat) -> nat
    decreases n,
{
    if n == 0 {
        0
    } else {
        folder_total_upto(es, folder, (n - 1) as nat) + if path_starts_with(es[n - 1].path@, folder)
            && !path_eq(es[n - 1].path@, folder) {
            es[n - 1].size as nat
        } else {
            0nat
        }
    }
}

/// The total size of the entries strictly under `folder`.
pub open spec fn folder_total(es: Seq<FileEntry>, folder: Seq<char>) -> nat {
    folder_total_upto(es, folder, es.len())
}

/// The size the browser shows for `e`: the total under it for a folder, its
/// own size for a file.
pub open spec fn display_size(es: Seq<FileEntry>, e: FileEntry) -> nat {
    if e.is_dir {
        folder_total(es, e.path@)
    } else {
        e.size as nat
    }
}

/// The sizes the browser shows, position by position.
pub open spec fn display_sizes(es: Seq<FileEntry>) -> Seq<u64> {
    Seq::new(es.len(), |i: int| display_size(es, es[i]) as u64)
}

proof fn lemma_folder_bounded(es: Seq<FileEntry>, folder: Seq<char>, n: nat)
    requires
        n <= es.len(),
    ensures
        folder_total_upto(es, folder, n) <= size_sum(es.take(n as int)),
    decreases n,
{
    if n > 0 {
        lemma_folder_bounded(es, folder, (n - 1) as nat);
        assert(es.take(n as int).drop_last() =~= es.take(n - 1));
    }
}

/// Under a bound on all the sizes, every folder total and every shown size
/// fits in a `u64`.
pub proof fn lemma_display_fits(es: Seq<FileEntry>, folder: Seq<char>)
    requires
        size_sum(es) <= u64::MAX,
    ensures
        folder_total(es, folder) <= u64::MAX,
        forall|i: int| 0 <= i < es.len() ==> #[trigger] display_size(es, es[i]) <= u64::MAX,
{
    lemma_folder_bounded(es, folder, es.len());
    lemma_take_all(es);
    assert forall|i: int| 0 <= i < es.len() implies #[trigger] display_size(es, es[i]) <= u64::MAX by {
        lemma_folder_bounded(es, es[i].path@, es.len());
    }
}

/// The total size of the entries strictly under `folder`.
pub fn folder_size_in(entries: &[FileEntry], folder: &str) -> (t: u64)
    requires
        folder_total(entries@, folder@) <= u64::MAX,
    ensures
        t == folder_total(entries@, folder@),
{
    let mut t: u64 = 0;
    let mut i: usize = 0;
    while i < entries.len()
        invariant
            i <= entries@.len(),
            folder_total(entries@, folder@) <= u64::MAX,
            t == folder_total_upto(entries@, folder@, i as nat),
        decreases entries@.len() - i,
    {
        proof {
            lemma_folder_monotone(entries@, folder@, (i + 1) as nat, entries@.len());
        }
        let e = &entries[i];
        if starts_with_path(e.path.as_str(), folder) && !same_path(e.path.as_str(), folder) {
            t = t + e.size;
        }
        i = i + 1;
    }
    t
}

proof fn lemma_folder_monotone(es: Seq<FileEntry>, folder: Seq<char>, m: nat, n: nat)
    requires
        m <= n,
    ensures
        folder_total_upto(es, folder, m) <= folder_total_upto(es, folder, n),
    decreases n - m,
{
    if m < n {
        lemma_folder_monotone(es, folder, m, (n - 1) as nat);
    }
}

/// Entry `e` stands directly in the folder `dir`.
pub open spec fn in_folder(e: FileEntry, dir: Seq<char>) -> bool {
    match path_parent(e.path@) {
        Some(p) => path_eq(p, dir),
        None => false,
    }
}

/// The browser shows position `i` of the scan: an entry directly in the
/// current folder, hidden only where hidden entries are shown, whose
/// lowercase name holds the lowercase search text.
pub open spec fn browse_shown(a: App, i: int) -> bool {
    let e = scan_entries(a)[i];
    &&& in_folder(e, a.current_path@)
    &&& a.show_hidden || !e.is_hidden
    &&& a.browse_search_query@.len() == 0 || seq_contains(lowercase(e.name@), lowercase(a.browse_search_query@))
}

/// The positions the browser shows.
pub open spec fn browse_set(a: App) -> Set<int> {
    Set::new(|i: int| 0 <= i < scan_entries(a).len() && browse_shown(a, i))
}

/// How many of the first `n` positions the browser shows.
pub open spec fn browse_count_upto(a: App, n: nat) -> nat
    decreases n,
{
    if n == 0 {
        0
    } else {
        browse_count_upto(a, (n - 1) as nat) + if browse_shown(a, n - 1) {
            1nat
        } else {
            0nat
        }
    }
}

/// How many entries the browser shows.
pub open spec fn browse_count(a: App) -> nat {
    browse_count_upto(a, scan_entries(a).len())
}

/// The all-files sort order that a browser sort order names.
pub open spec fn browse_mode(m: BrowseSortMode) -> SortMode {
    match m {
        BrowseSortMode::SizeDesc => SortMode::SizeDesc,
        BrowseSortMode::SizeAsc => SortMode::SizeAsc,
        BrowseSortMode::NameAsc => SortMode::NameAsc,
        BrowseSortMode::NameDesc => SortMode::NameDesc,
        BrowseSortMode::DateDesc => SortMode::DateDesc,
        BrowseSortMode::DateAsc => SortMode::DateAsc,
    }
}

/// `r` is the browser's listing of `a`: the positions it shows, once each,
/// in its sort order, folders sized by what lies under them.
pub open spec fn is_browse_listing(r: Seq<usize>, a: App) -> bool {
    &&& r.len() == browse_count(a)
    &&& is_sorted_listing(
        r,
        scan_entries(a),
        display_sizes(scan_entries(a)),
        browse_set(a),
        browse_mode(a.browse_sort_mode),
    )
}

/// The first `n` positions of `es` that are visible with `show_hidden`.
pub open spec fn visible_upto(es: Seq<FileEntry>, show_hidden: bool, n: nat) -> Seq<usize>
    decreases n,
{
    if n == 0 {
        Seq::empty()
    } else if show_hidden || !es[n - 1].is_hidden {
        visible_upto(es, show_hidden, (n - 1) as nat).push((n - 1) as usize)
    } else {
        visible_upto(es, show_hidden, (n - 1) as nat)
    }
}

/// The sort order of the all-files screen that a browser order names.
fn browse_sort_of(m: BrowseSortMode) -> (s: SortMode)
    ensures
        s == browse_mode(m),
{
    match m {
        BrowseSortMode::SizeDesc => SortMode::SizeDesc,
        BrowseSortMode::SizeAsc => SortMode::SizeAsc,
        BrowseSortMode::NameAsc => SortMode::NameAsc,
        BrowseSortMode::NameDesc => SortMode::NameDesc,
        BrowseSortMode::DateDesc => SortMode::DateDesc,
        BrowseSortMode::DateAsc => SortMode::DateAsc,
    }
}

impl App {
    /// The total size of the scanned entries strictly under `folder_path`.
    pub fn calculate_folder_size(&self, folder_path: &str) -> (t: u64)
        requires
            folder_total(scan_entries(*self), folder_path@) <= u64::MAX,
        ensures
            t == folder_total(scan_entries(*self), folder_path@),
    {
        match &self.scan_result {
            Some(result) => folder_size_in(result.entries.as_slice(), folder_path),
            None => 0,
        }
    }

    /// The size the browser shows for `entry`.
    pub fn get_entry_display_size(&self, entry: &FileEntry) -> (t: u64)
        requires
            display_size(scan_entries(*self), *entry) <= u64::MAX,
        ensures
            t == display_size(scan_entries(*self), *entry),
    {
        if entry.is_dir {
            self.calculate_folder_size(entry.path.as_str())
        } else {
            entry.size
        }
    }

    /// The positions of the scanned entries that are visible: all of them,
    /// or the ones not hidden where hidden entries are not shown.
    pub fn get_visible_entries(&self) -> (r: Vec<usize>)
        ensures
            r@ == visible_upto(scan_entries(*self), self.show_hidden, scan_entries(*self).len()),
    {
        let mut r: Vec<usize> = Vec::new();
        match &self.scan_result {
            Some(result) => {
                let es = result.entries.as_slice();
                let mut i: usize = 0;
                while i < es.len()
                    invariant
                        i <= es@.len(),
                        es@ == scan_entries(*self),
                        r@ == visible_upto(es@, self.show_hidden, i as nat),
                    decreases es@.len() - i,
                {
                    if self.show_hidden || !es[i].is_hidden {
                        r.push(i);
                    }
                    i = i + 1;
                }
            },
            None => {},
        }
        r
    }

    /// The positions of the entries the browser shows, in its sort order.
    pub fn get_current_entries(&self) -> (r: Vec<usize>)
        requires
            size_sum(scan_entries(*self)) <= u64::MAX,
        ensures
            is_browse_listing(r@, *self),
    {
        let es: &[FileEntry] = match &self.scan_result {
            Some(result) => result.entries.as_slice(),
            None => {
                let r: Vec<usize> = Vec::new();
                proof {
                    assert(browse_set(*self) =~= Set::empty());
                }
                return r;
            },
        };
        assert(es@ == scan_entries(*self));
        let query = to_lowercase(self.browse_search_query.as_str());
        let no_query = self.browse_search_query.as_str().is_empty();
        let mut ks: Vec<usize> = Vec::new();
        let mut sizes: Vec<u64> = Vec::new();
        let mut i: usize = 0;
        while i < es.len()
            invariant
                i <= es@.len(),
                es@ == scan_entries(*self),
                size_sum(es@) <= u64::MAX,
                query@ == lowercase(self.browse_search_query@),
                no_query == (self.browse_search_query@.len() == 0),
                increasing(ks@),
                ks@.len() == browse_count_upto(*self, i as nat),
                sizes@.len() == i,
                forall|p: int|
                    0 <= p < ks@.len() ==> #[trigger] ks@[p] < i && browse_shown(*self, ks@[p] as int)
                        && sizes@[ks@[p] as int] == display_sizes(es@)[ks@[p] as int],
                forall|j: int| 0 <= j < i && browse_shown(*self, j) ==> ks@.contains(j as usize),
            decreases es@.len() - i,
        {
            let e = &es[i];
            let in_dir = match parent_of(e.path.as_str()) {
                Some(p) => same_path(p.as_str(), self.current_path.as_str()),
                None => false,
            };
            let visible = self.show_hidden || !e.is_hidden;
            let found = if no_query {
                true
            } else {
                let name = to_lowercase(e.name.as_str());
                str_contains(name.as_str(), query.as_str())
            };
            let ghost old_ks = ks@;
            let keep = in_dir && visible && found;
            proof {
                assert(keep == browse_shown(*self, i as int));
            }
            if keep {
                proof {
                    lemma_display_fits(es@, e.path@);
                    assert(display_size(es@, es@[i as int]) <= u64::MAX);
                }
                let shown_size = if e.is_dir {
                    folder_size_in(es, e.path.as_str())
                } else {
                    e.size
                };
                sizes.push(shown_size);
                ks.push(i);
                proof {
                    assert(ks@[old_ks.len() as int] == i);
                }
            } else {
                sizes.push(0);
            }
            proof {
                assert forall|j: int| 0 <= j < i + 1 && browse_shown(*self, j) implies ks@.contains(
                    j as usize,
                ) by {
                    if j < i {
                        assert(old_ks.contains(j as usize));
                        let q = choose|q: int| 0 <= q < old_ks.len() && old_ks[q] == j as usize;
                        assert(ks@[q] == j as usize);
                    } else {
                        assert(ks@[old_ks.len() as int] == i);
                    }
                }
            }
            i = i + 1;
        }
        let r = order_positions(es, &sizes, &ks, browse_sort_of(self.browse_sort_mode));
        proof {
            let keep = browse_set(*self);
            let m = browse_mode(self.browse_sort_mode);
            let ds = display_sizes(es@);
            assert forall|a: int| 0 <= a < r@.len() implies #[trigger] r@[a] < es@.len()
                && keep.contains(r@[a] as int) by {
                assert(ks@.contains(r@[a]));
                let p = choose|p: int| 0 <= p < ks@.len() && ks@[p] == r@[a];
                assert(browse_shown(*self, ks@[p] as int));
            }
            assert forall|j: int| 0 <= j < es@.len() && keep.contains(j) implies r@.contains(
                j as usize,
            ) by {
                assert(ks@.contains(j as usize));
                let p = choose|p: int| 0 <= p < ks@.len() && ks@[p] == j as usize;
                assert(r@.contains(ks@[p]));
            }
            assert forall|a: int, b: int| 0 <= a < b < r@.len() implies crate::ui::all_files::mode_before(
                m,
                es@,
                ds,
                r@[a] as int,
                r@[b] as int,
            ) by {
                assert(crate::ui::all_files::mode_before(m, es@, sizes@, r@[a] as int, r@[b] as int));
                assert(ks@.contains(r@[a]));
                assert(ks@.contains(r@[b]));
                let pa = choose|p: int| 0 <= p < ks@.len() && ks@[p] == r@[a];
                let pb = choose|p: int| 0 <= p < ks@.len() && ks@[p] == r@[b];
                assert(sizes@[r@[a] as int] == ds[r@[a] as int]);
                assert(sizes@[r@[b] as int] == ds[r@[b] as int]);
            }
        }
        r
    }
}

/// The home directory, or the root where there is none.
pub open spec fn home_or_root(home: Option<Seq<char>>) -> Seq<char> {
    match home {
        Some(h) => h,
        None => "/"@,
    }
}

/// The path that home option `o` scans, `custom` being the custom path
/// typed so far and `home` the user's home directory.
pub open spec fn option_path(o: ScanOption, custom: Seq<char>, home: Option<Seq<char>>) -> Seq<char> {
    match o {
        ScanOption::FullDisk => "/"@,
        ScanOption::CustomPath => if custom.len() == 0 {
            home_or_root(home)
        } else {
            custom
        },
        _ => home_or_root(home),
    }
}

/// The paths among the first `n` of `ds` that begin with `prefix` (as text).
pub open spec fn matching_upto(ds: Seq<String>, prefix: Seq<char>, n: nat) -> Seq<Seq<char>>
    decreases n,
{
    if n == 0 {
        Seq::empty()
    } else if seq_starts_with(ds[n - 1]@, prefix) {
        matching_upto(ds, prefix, (n - 1) as nat).push(ds[n - 1]@)
    } else {
        matching_upto(ds, prefix, (n - 1) as nat)
    }
}

/// At most the first five items of `s`.
pub open spec fn first_five(s: Seq<Seq<char>>) -> Seq<Seq<char>> {
    if s.len() <= 5 {
        s
    } else {
        s.take(5)
    }
}

/// The suggestions for the typed path `typed`: the root and the home
/// directory (empty where there is none) while nothing is typed; else the
/// first five folders of `listing` (the folders where the typed path
/// points, if they could be listed) whose path begins with the typed text;
/// `current` where they could not.
pub open spec fn suggestions_for(
    typed: Seq<char>,
    home: Option<Seq<char>>,
    listing: Option<Seq<String>>,
    current: Seq<Seq<char>>,
) -> Seq<Seq<char>> {
    if typed.len() == 0 {
        seq!["/"@, match home {
            Some(h) => h,
            None => Seq::empty(),
        }]
    } else {
        match listing {
            Some(ds) => first_five(matching_upto(ds, typed, ds.len())),
            None => current,
        }
    }
}

/// The folder whose subfolders are suggested for the typed path `typed`:
/// the path itself where it is a folder, else its parent, else the root.
pub open spec fn suggestion_folder(typed: Seq<char>, is_dir: bool) -> Seq<char> {
    if is_dir {
        typed
    } else {
        match path_parent(typed) {
            Some(p) => p,
            None => "/"@,
        }
    }
}

/// The folder whose subfolders are suggested for `typed`, given whether
/// `typed` names a folder.
pub fn suggestion_base(typed: &str, is_dir: bool) -> (b: String)
    ensures
        b@ == suggestion_folder(typed@, is_dir),
{
    if is_dir {
        String::from_str(typed)
    } else {
        match parent_of(typed) {
            Some(p) => p,
            None => String::from_str("/"),
        }
    }
}

/// The characters of each string.
pub open spec fn views_of(v: Seq<String>) -> Seq<Seq<char>> {
    v.map_values(|s: String| s@)
}

/// Where `a` and `b` differ only in `a.home_menu.path_suggestions`.
pub open spec fn differs_in_suggestions(a: App, b: App) -> bool {
    b == (App {
        home_menu: HomeMenuState { path_suggestions: b.home_menu.path_suggestions, ..a.home_menu },
        ..a
    })
}

/// The label order of the category groups: `order` lists each group once,
/// by label, ties in list order.
pub open spec fn label_order(order: Seq<usize>, gs: Seq<CategoryGroup>) -> bool {
    &&& crate::sorting::is_order_of(order, gs.len())
    &&& forall|a: int, b: int|
        0 <= a < b < order.len() ==> crate::sorting::lex_lt(
            gs[order[a] as int].category.label(),
            gs[order[b] as int].category.label(),
        ) || (!crate::sorting::lex_lt(gs[order[b] as int].category.label(), gs[order[a] as int].category.label())
            && order[a] < order[b])
}

/// The browser opened folder `path`: the current folder went onto the
/// stack, `path` is current with its first row selected, and the status
/// line names it.
pub open spec fn opened_folder(old_app: App, new_app: App, path: Seq<char>) -> bool {
    &&& new_app == (App {
        navigation_stack: new_app.navigation_stack,
        current_path: new_app.current_path,
        list_selected: Some(0usize),
        status_message: new_app.status_message,
        ..old_app
    })
    &&& new_app.navigation_stack@ == old_app.navigation_stack@.push(old_app.current_path)
    &&& new_app.current_path@ == path
    &&& new_app.status_message@ == "📂 "@ + path
}

/// The browser went to folder `path` (from the stack or up to a parent):
/// `path` is current with its first row selected, and the status line
/// names it.
pub open spec fn went_to(old_app: App, new_app: App, path: Seq<char>) -> bool {
    &&& new_app == (App {
        navigation_stack: new_app.navigation_stack,
        current_path: new_app.current_path,
        list_selected: Some(0usize),
        status_message: new_app.status_message,
        ..old_app
    })
    &&& new_app.current_path@ == path
    &&& new_app.status_message@ == "📂 "@ + path
}

/// What `next_item` does.
pub open spec fn next_item_step(old_app: App, new_app: App) -> bool {
    &&& old_app.current_view == ViewMode::AllFiles ==> new_app == (App {
        list_selected: crate::ui::all_files::next_index(
            old_app.list_selected,
            browse_count(old_app) as usize,
        ),
        ..old_app
    })
    &&& old_app.current_view == ViewMode::Categories ==> new_app == (App {
        category_selected: crate::ui::all_files::next_index(
            old_app.category_selected,
            old_app.categories@.len() as usize,
        ),
        ..old_app
    })
}

/// What `previous_item` does.
pub open spec fn previous_item_step(old_app: App, new_app: App) -> bool {
    &&& old_app.current_view == ViewMode::AllFiles ==> new_app == (App {
        list_selected: crate::ui::all_files::prev_index(
            old_app.list_selected,
            browse_count(old_app) as usize,
        ),
        ..old_app
    })
    &&& old_app.current_view == ViewMode::Categories ==> new_app == (App {
        category_selected: crate::ui::all_files::prev_index(
            old_app.category_selected,
            old_app.categories@.len() as usize,
        ),
        ..old_app
    })
}

/// What `enter_folder` does.
pub open spec fn enter_folder_step(old_app: App, new_app: App) -> bool {
    &&& old_app.current_view != ViewMode::AllFiles ==> new_app == old_app
    &&& old_app.current_view == ViewMode::AllFiles ==> exists|r: Seq<usize>|
        is_browse_listing(r, old_app) && match old_app.list_selected {
            Some(s) => if s < r.len() && scan_entries(old_app)[r[s as int] as int].is_dir {
                opened_folder(
                    old_app,
                    new_app,
                    scan_entries(old_app)[r[s as int] as int].path@,
                )
            } else {
                new_app == old_app
            },
            None => new_app == old_app,
        }
}

/// What `go_back` does.
pub open spec fn go_back_step(old_app: App, new_app: App) -> bool {
    &&& old_app.navigation_stack@.len() > 0 ==> {
        &&& went_to(old_app, new_app, old_app.navigation_stack@.last()@)
        &&& new_app.navigation_stack@ == old_app.navigation_stack@.drop_last()
    }
    &&& old_app.navigation_stack@.len() == 0 ==> match path_parent(old_app.current_path@) {
        Some(p) => if !path_eq(old_app.current_path@, old_app.scan_path@) && (
        path_starts_with(p, old_app.scan_path@) || path_eq(p, old_app.scan_path@)) {
            went_to(old_app, new_app, p) && new_app.navigation_stack
                == old_app.navigation_stack
        } else {
            new_app == old_app
        },
        None => new_app == old_app,
    }
}

/// What `enter_category_view` does.
pub open spec fn enter_category_step(old_app: App, new_app: App) -> bool {
    &&& match old_app.category_selected {
        Some(i) => exists|order: Seq<usize>|
            label_order(order, old_app.categories@) && if i < old_app.categories@.len() {
                let c = old_app.categories@[order[i as int] as int].category;
                &&& new_app == (App {
                    selected_category: Some(c),
                    state: AppState::CategoryView,
                    status_message: new_app.status_message,
                    ..old_app
                })
                &&& new_app.status_message@ == c.label() + " · "@ + c.explanation()
            } else {
                new_app == old_app
            },
        None => new_app == old_app,
    }
}

impl App {
    /// The path the selected home option scans, `home` being the user's
    /// home directory where there is one.
    pub fn get_scan_path_from_option(&self, home: Option<String>) -> (p: String)
        requires
            self.home_menu.selected_option < self.home_menu.options@.len(),
        ensures
            p@ == option_path(
                self.home_menu.options@[self.home_menu.selected_option as int],
                self.home_menu.custom_path@,
                opt_view(home),
            ),
    {
        let home_path = match home {
            Some(h) => h,
            None => String::from_str("/"),
        };
        match self.home_menu.options[self.home_menu.selected_option] {
            ScanOption::FullDisk => String::from_str("/"),
            ScanOption::CustomPath => {
                if self.home_menu.custom_path.as_str().is_empty() {
                    home_path
                } else {
                    self.home_menu.custom_path.clone()
                }
            },
            _ => home_path,
        }
    }

    /// Refreshes the suggestions for the typed path: `home` is the user's
    /// home directory where there is one, and `listing` the folders found
    /// where the typed path points (see `suggestion_base`), or `None` where
    /// that folder could not be read.
    pub fn update_path_suggestions(&mut self, home: Option<String>, listing: Option<Vec<String>>)
        ensures
            differs_in_suggestions(*old(self), *final(self)),
            views_of(final(self).home_menu.path_suggestions@) == suggestions_for(
                old(self).path_input@,
                opt_view(home),
                match listing {
                    Some(ds) => Some(ds@),
                    None => None,
                },
                views_of(old(self).home_menu.path_suggestions@),
            ),
    {
        if self.path_input.len() == 0 {
            let mut v: Vec<String> = Vec::new();
            v.push(String::from_str("/"));
            match home {
                Some(h) => v.push(h),
                None => v.push(String::new()),
            }
            self.home_menu.path_suggestions = v;
            proof {
                assert(views_of(self.home_menu.path_suggestions@) =~= suggestions_for(
                    old(self).path_input@,
                    opt_view(home),
                    match listing {
                        Some(ds) => Some(ds@),
                        None => None,
                    },
                    views_of(old(self).home_menu.path_suggestions@),
                ));
            }
            return;
        }
        match listing {
            Some(ds) => {
                let typed = crate::text::string_of_chars(&self.path_input);
                let mut out: Vec<String> = Vec::new();
                let mut i: usize = 0;
                while i < ds.len()
                    invariant
                        i <= ds@.len(),
                        typed@ == self.path_input@,
                        views_of(out@) == first_five(matching_upto(ds@, typed@, i as nat)),
                    decreases ds@.len() - i,
                {
                    if out.len() < 5 && str_starts_with(ds[i].as_str(), typed.as_str()) {
                        out.push(ds[i].clone());
                    }
                    proof {
                        let prev = matching_upto(ds@, typed@, i as nat);
                        if seq_starts_with(ds@[i as int]@, typed@) {
                            assert(matching_upto(ds@, typed@, (i + 1) as nat) == prev.push(ds@[i as int]@));
                            if prev.len() >= 5 {
                                assert(first_five(prev.push(ds@[i as int]@)) =~= first_five(prev));
                            } else {
                                assert(views_of(out@) =~= first_five(prev).push(ds@[i as int]@));
                            }
                        }
                    }
                    i = i + 1;
                }
                self.home_menu.path_suggestions = out;
            },
            None => {},
        }
    }

    /// Moves the selection of the shown list (the browser's rows or the
    /// categories) down, wrapping to the top.
    pub fn next_item(&mut self)
        requires
            size_sum(scan_entries(*old(self))) <= u64::MAX,
        ensures
            next_item_step(*old(self), *final(self)),
    {
        match self.current_view {
            ViewMode::AllFiles => {
                let total = self.get_current_entries().len();
                let mut st = crate::ui::all_files::AllFilesState::default();
                st.selected = self.list_selected;
                st.next(total);
                self.list_selected = st.selected;
            },
            ViewMode::Categories => {
                let total = self.categories.len();
                let mut st = crate::ui::all_files::AllFilesState::default();
                st.selected = self.category_selected;
                st.next(total);
                self.category_selected = st.selected;
            },
        }
    }

    /// Moves the selection of the shown list up, wrapping to the bottom.
    pub fn previous_item(&mut self)
        requires
            size_sum(scan_entries(*old(self))) <= u64::MAX,
        ensures
            previous_item_step(*old(self), *final(self)),
    {
        match self.current_view {
            ViewMode::AllFiles => {
                let total = self.get_current_entries().len();
                let mut st = crate::ui::all_files::AllFilesState::default();
                st.selected = self.list_selected;
                st.previous(total);
                self.list_selected = st.selected;
            },
            ViewMode::Categories => {
                let total = self.categories.len();
                let mut st = crate::ui::all_files::AllFilesState::default();
                st.selected = self.category_selected;
                st.previous(total);
                self.category_selected = st.selected;
            },
        }
    }

    /// Opens the folder on the selected row of the browser, if it is one.
    pub fn enter_folder(&mut self)
        requires
            size_sum(scan_entries(*old(self))) <= u64::MAX,
        ensures
            enter_folder_step(*old(self), *final(self)),
    {
        if self.current_view != ViewMode::AllFiles {
            return;
        }
        let ghost a0 = *self;
        let current = self.get_current_entries();
        let target: Option<String> = match self.list_selected {
            Some(sel) => {
                if sel < current.len() {
                    match &self.scan_result {
                        Some(result) => {
                            let e = &result.entries[current[sel]];
                            if e.is_dir {
                                Some(e.path.clone())
                            } else {
                                None
                            }
                        },
                        None => None,
                    }
                } else {
                    None
                }
            },
            None => None,
        };
        match target {
            Some(new_path) => {
                let prev = self.current_path.clone();
                self.navigation_stack.push(prev);
                self.current_path = new_path;
                self.list_selected = Some(0);
                self.status_message = crate::text::concat2("📂 ", self.current_path.as_str());
            },
            None => {},
        }
        proof {
            assert(is_browse_listing(current@, a0));
        }
    }

    /// Goes back to the folder the browser came from, or else up to the
    /// parent of the current folder while that stays within the scanned
    /// folder.
    pub fn go_back(&mut self)
        ensures
            go_back_step(*old(self), *final(self)),
    {
        if self.navigation_stack.len() > 0 {
            match self.navigation_stack.pop() {
                Some(prev) => {
                    self.current_path = prev;
                    self.list_selected = Some(0);
                    self.status_message = crate::text::concat2("📂 ", self.current_path.as_str());
                },
                None => {},
            }
        } else {
            {
                if !same_path(self.current_path.as_str(), self.scan_path.as_str()) {
                    match parent_of(self.current_path.as_str()) {
                        Some(parent) => {
                            if starts_with_path(parent.as_str(), self.scan_path.as_str()) || same_path(
                                parent.as_str(),
                                self.scan_path.as_str(),
                            ) {
                                self.current_path = parent;
                                self.list_selected = Some(0);
                                self.status_message = crate::text::concat2(
                                    "📂 ",
                                    self.current_path.as_str(),
                                );
                            }
                        },
                        None => {},
                    }
                }
            }
        }
    }

    /// Opens the category on the selected row of the category list, the
    /// categories listed by label.
    pub fn enter_category_view(&mut self)
        ensures
            enter_category_step(*old(self), *final(self)),
    {
        match self.category_selected {
            Some(i) => {
                let mut keys: Vec<crate::sorting::TextKey> = Vec::new();
                let mut k: usize = 0;
                while k < self.categories.len()
                    invariant
                        k <= self.categories@.len(),
                        keys@.len() == k,
                        forall|q: int|
                            0 <= q < k ==> (#[trigger] keys@[q]).0@ == self.categories@[q].category.label(),
                    decreases self.categories@.len() - k,
                {
                    keys.push(crate::sorting::TextKey(crate::text::chars_of(self.categories[k].category.as_str())));
                    k = k + 1;
                }
                let order = crate::sorting::stable_order(&keys, false);
                proof {
                    assert forall|a: int, b: int| 0 <= a < b < order@.len() implies crate::sorting::lex_lt(
                        self.categories@[order@[a] as int].category.label(),
                        self.categories@[order@[b] as int].category.label(),
                    ) || (!crate::sorting::lex_lt(
                        self.categories@[order@[b] as int].category.label(),
                        self.categories@[order@[a] as int].category.label(),
                    ) && order@[a] < order@[b]) by {
                        assert(crate::sorting::comes_before(
                            keys@[order@[a] as int],
                            order@[a] as int,
                            keys@[order@[b] as int],
                            order@[b] as int,
                            false,
                        ));
                    }
                    assert(label_order(order@, self.categories@));
                }
                if i < order.len() {
                    let c = self.categories[order[i]].category;
                    self.selected_category = Some(c);
                    self.state = AppState::CategoryView;
                    self.status_message = crate::text::concat3(c.as_str(), " · ", c.description());
                }
            },
            None => {},
        }
    }
}

} // verus!
