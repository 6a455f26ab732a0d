//! The terminal interface's screens, view modes, sort and filter modes, and
//! the settings of its home screen.
use vstd::prelude::*;
use crate::models::StorageInfo;

verus! {

/// Which screen the terminal interface shows.
#[derive(Debug, Clone, Copy, PartialEq, Eq, Structural)]
pub enum AppState {
    Home,
    PathInput,
    Scanning,
    ScanDetails,
    Viewing,
    CategoryView,
    Deleting,
    Confirmation,
    SystemWarning,
    AllFiles,
    Search,
}

/// How the browsing screen lists the results.
#[derive(Debug, Clone, Copy, PartialEq, Eq, Structural)]
pub enum ViewMode {
    AllFiles,
    Categories,
}

impl ViewMode {
    /// The other view.
    pub fn toggled(&self) -> (v: ViewMode)
        ensures
            v != *self,
            *self == ViewMode::AllFiles ==> v == ViewMode::Categories,
            *self == ViewMode::Categories ==> v == ViewMode::AllFiles,
    {
        match self {
            ViewMode::AllFiles => ViewMode::Categories,
            ViewMode::Categories => ViewMode::AllFiles,
        }
    }
}

/// What the home screen offers to scan.
#[derive(Debug, Clone, Copy, PartialEq, Eq, Structural)]
pub enum ScanOption {
    FullDisk,
    HomeDirectory,
    CustomPath,
    QuickScan,
    LargeFiles,
    OldFiles,
}

impl Default for ScanOption {
    fn default() -> (o: Self)
        ensures
            o == ScanOption::HomeDirectory,
    {
        ScanOption::HomeDirectory
    }
}

/// Sort order of the browsing screen.
#[derive(Debug, Clone, Copy, PartialEq, Eq, Structural)]
pub enum BrowseSortMode {
    SizeDesc,
    SizeAsc,
    NameAsc,
    NameDesc,
    DateDesc,
    DateAsc,
}

impl Default for BrowseSortMode {
    fn default() -> (m: Self)
        ensures
            m == BrowseSortMode::SizeDesc,
    {
        BrowseSortMode::SizeDesc
    }
}

/// The label of a sort order.
pub open spec fn sort_label(m: BrowseSortMode) -> Seq<char> {
    match m {
        BrowseSortMode::SizeDesc => "Size ↓"@,
        BrowseSortMode::SizeAsc => "Size ↑"@,
        BrowseSortMode::NameAsc => "Name A-Z"@,
        BrowseSortMode::NameDesc => "Name Z-A"@,
        BrowseSortMode::DateDesc => "Date ↓"@,
        BrowseSortMode::DateAsc => "Date ↑"@,
    }
}

/// The sort order after `m`.
pub open spec fn next_sort(m: BrowseSortMode) -> BrowseSortMode {
    match m {
        BrowseSortMode::SizeDesc => BrowseSortMode::SizeAsc,
        BrowseSortMode::SizeAsc => BrowseSortMode::NameAsc,
        BrowseSortMode::NameAsc => BrowseSortMode::NameDesc,
        BrowseSortMode::NameDesc => BrowseSortMode::DateDesc,
        BrowseSortMode::DateDesc => BrowseSortMode::DateAsc,
        BrowseSortMode::DateAsc => BrowseSortMode::SizeDesc,
    }
}

impl BrowseSortMode {
    /// The label of the sort order.
    pub fn name(&self) -> (s: &'static str)
        ensures
            s@ == sort_label(*self),
    {
        match self {
            BrowseSortMode::SizeDesc => "Size ↓",
            BrowseSortMode::SizeAsc => "Size ↑",
            BrowseSortMode::NameAsc => "Name A-Z",
            BrowseSortMode::NameDesc => "Name Z-A",
            BrowseSortMode::DateDesc => "Date ↓",
            BrowseSortMode::DateAsc => "Date ↑",
        }
    }

    /// The next sort order, in the order the modes are declared, wrapping.
    pub fn cycle(&self) -> (m: Self)
        ensures
            m == next_sort(*self),
    {
        match self {
            BrowseSortMode::SizeDesc => BrowseSortMode::SizeAsc,
            BrowseSortMode::SizeAsc => BrowseSortMode::NameAsc,
            BrowseSortMode::NameAsc => BrowseSortMode::NameDesc,
            BrowseSortMode::NameDesc => BrowseSortMode::DateDesc,
            BrowseSortMode::DateDesc => BrowseSortMode::DateAsc,
            BrowseSortMode::DateAsc => BrowseSortMode::SizeDesc,
        }
    }
}

/// Cycling the sort order six times comes back to where it started, and no
/// fewer cycles do.
pub proof fn law_sort_cycle_period(m: BrowseSortMode)
    ensures
        next_sort(next_sort(next_sort(next_sort(next_sort(next_sort(m)))))) == m,
        next_sort(m) != m,
        next_sort(next_sort(m)) != m,
        next_sort(next_sort(next_sort(m))) != m,
        next_sort(next_sort(next_sort(next_sort(m)))) != m,
        next_sort(next_sort(next_sort(next_sort(next_sort(m))))) != m,
{
}

/// Different sort orders have different labels.
pub proof fn law_sort_labels_distinct(a: BrowseSortMode, b: BrowseSortMode)
    requires
        a != b,
    ensures
        sort_label(a) != sort_label(b),
{
    reveal_strlit("Size ↓");
    reveal_strlit("Size ↑");
    reveal_strlit("Name A-Z");
    reveal_strlit("Name Z-A");
    reveal_strlit("Date ↓");
    reveal_strlit("Date ↑");
    if sort_label(a) == sort_label(b) {
        assert(sort_label(a).len() == sort_label(b).len());
        assert(sort_label(a)[0] == sort_label(b)[0]);
        assert(sort_label(a)[sort_label(a).len() - 1] == sort_label(b)[sort_label(b).len() - 1]);
    }
}

/// The settings of the home screen.
#[derive(Debug, Clone)]
pub struct HomeMenuState {
    pub options: Vec<ScanOption>,
    pub selected_option: usize,
    pub custom_path: String,
    pub path_suggestions: Vec<String>,
    pub min_size_mb: u64,
    pub max_depth: usize,
    pub include_hidden: bool,
    pub storage_info: StorageInfo,
}

/// The options the home screen offers, in order.
pub open spec fn home_options() -> Seq<ScanOption> {
    seq![
        ScanOption::FullDisk,
        ScanOption::HomeDirectory,
        ScanOption::CustomPath,
        ScanOption::QuickScan,
        ScanOption::LargeFiles,
        ScanOption::OldFiles,
    ]
}

impl Default for HomeMenuState {
    fn default() -> (h: Self)
        ensures
            h.options@ == home_options(),
            h.selected_option == 1,
            h.custom_path@.len() == 0,
            h.path_suggestions@.len() == 0,
            h.min_size_mb == 1,
            h.max_depth == 0,
            h.include_hidden,
            h.storage_info.total_space == 0,
            h.storage_info.available_space == 0,
            h.storage_info.used_space == 0,
    {
        let mut options: Vec<ScanOption> = Vec::new();
        options.push(ScanOption::FullDisk);
        options.push(ScanOption::HomeDirectory);
        options.push(ScanOption::CustomPath);
        options.push(ScanOption::QuickScan);
        options.push(ScanOption::LargeFiles);
        options.push(ScanOption::OldFiles);
        assert(options@ =~= home_options());
        HomeMenuState {
            options,
            selected_option: 1,
            custom_path: String::new(),
            path_suggestions: Vec::new(),
            min_size_mb: 1,
            max_depth: 0,
            include_hidden: true,
            storage_info: StorageInfo::default(),
        }
    }
}

/// A copy of the scan progress taken for drawing.
#[derive(Debug, Clone)]
pub struct ScanProgressSnapshot {
    pub current_path: String,
    pub files_scanned: usize,
    pub dirs_scanned: usize,
    pub total_size_scanned: u64,
    pub entries_count: usize,
    /// (name, size, category) of the largest entries found so far.
    pub top_entries: Vec<(String, u64, String)>,
    /// Bytes found so far in each live-scan group.
    pub category_sizes: Vec<(String, u64)>,
}

impl Default for ScanProgressSnapshot {
    fn default() -> (s: Self)
        ensures
            s.current_path@.len() == 0,
            s.files_scanned == 0,
            s.dirs_scanned == 0,
            s.total_size_scanned == 0,
            s.entries_count == 0,
            s.top_entries@.len() == 0,
            s.category_sizes@.len() == 0,
    {
        ScanProgressSnapshot {
            current_path: String::new(),
            files_scanned: 0,
            dirs_scanned: 0,
            total_size_scanned: 0,
            entries_count: 0,
            top_entries: Vec::new(),
            category_sizes: Vec::new(),
        }
    }
}

} // verus!
