//! What the terminal interface does with each key and mouse event, screen by
//! screen.  Each handler changes the interface's state and returns the
//! outside work it asks for, which the caller performs and reports back.
use vstd::prelude::*;
use crate::models::FileEntry;
use crate::paths::opt_view;
use crate::text::{decimal, chars_of, push_char, pop_char};
use crate::ui::types::{AppState, ViewMode, ScanOption, HomeMenuState};
use crate::ui::input::{
    Key,
    is_up_key,
    is_down_key,
    handle_path_input,
    PathInputResult,
    edited_path,
    edited_cursor,
    asks_suggestions,
    edited_query,
};
use crate::ui::app::{
    App,
    option_path,
    scan_entries,
    is_browse_listing,
    browse_count,
    next_item_step,
    previous_item_step,
    enter_folder_step,
    enter_category_step,
    go_back_step,
    switch_view_step,
    toggle_hidden_step,
};
use crate::ui::deletion::{without_first, remove_first, delete_marked_step, toggle_mark_step, lemma_browse_same};
use crate::ui::types::{next_sort, sort_label};
use crate::ui::all_files::{
    AllFilesState,
    index_listed,
    is_sorted_listing,
    plain_sizes,
    shown_set,
    next_sort_mode,
    next_filter_mode,
    get_filtered_entries_at,
};
use crate::clock::unix_now;
use crate::ui::mouse::MouseResult;
use crate::models::{ScanProgress, ScanResult};
use crate::analyzer::analysis::{categories_of, groups_of, groups_match, safe_sum};
use crate::analyzer::recommend::{string_views, recommendation_lines, top_directory};
use crate::scanner::dir_calculator::pair_views;
use crate::ui::types::ScanProgressSnapshot;
use crate::analyzer::analysis::{Analyzer, size_sum, lemma_size_sum_prefix};
use crate::analyzer::rules::{ClassificationRules, category_in};
use crate::text::{human, human_size, decimal_string, concat2, concat3, concat5};

verus! {

/// Outside work that handling an event asks for.
#[derive(Debug, Clone)]
pub enum UiAction {
    /// Nothing to do.
    Nothing,
    /// Leave the interface.
    Quit,
    /// Scan `scan_path` with the home screen's settings.
    StartScan,
    /// List the folders where the typed path points and hand them to
    /// `update_path_suggestions`.
    RefreshSuggestions,
    /// Measure the space these paths take and hand it to
    /// `ask_delete_confirmation`.
    MeasureDeletion(Vec<String>),
    /// Delete these paths and hand the outcome to `finish_deletion`.
    DeletePaths(Vec<String>),
}

/// The smaller of `a` and `b`.
pub open spec fn min_nat(a: int, b: int) -> int {
    if a <= b {
        a
    } else {
        b
    }
}

/// The home screen after choosing its selected option with nothing else
/// changed: a custom path not typed yet opens the path field, any other
/// option starts scanning its path.
pub open spec fn choose_option_step(old_app: App, new_app: App, home: Option<Seq<char>>, r: UiAction) -> bool {
    let h = old_app.home_menu;
    if h.options@[h.selected_option as int] == ScanOption::CustomPath && h.custom_path@.len() == 0 {
        &&& r is RefreshSuggestions
        &&& new_app == (App { state: AppState::PathInput, path_input: new_app.path_input, ..old_app })
        &&& new_app.path_input@.len() == 0
    } else {
        &&& r is StartScan
        &&& new_app == (App {
            scan_path: new_app.scan_path,
            current_path: new_app.current_path,
            state: AppState::Scanning,
            ..old_app
        })
        &&& new_app.scan_path@ == option_path(h.options@[h.selected_option as int], h.custom_path@, home)
        &&& new_app.current_path == new_app.scan_path
    }
}

/// `new_app` is `old_app` with the home settings `h`.
pub open spec fn with_home(old_app: App, new_app: App, h: HomeMenuState) -> bool {
    new_app == (App { home_menu: h, ..old_app })
}

/// What a key does on the home screen.
pub open spec fn home_key_step(old_app: App, new_app: App, key: Key, home: Option<Seq<char>>, r: UiAction) -> bool {
    let h = old_app.home_menu;
    match key {
        Key::Char('q') => r is Quit && new_app == old_app,
        Key::Up | Key::Char('k') => r is Nothing && with_home(
            old_app,
            new_app,
            HomeMenuState {
                selected_option: if h.selected_option > 0 {
                    (h.selected_option - 1) as usize
                } else {
                    h.selected_option
                },
                ..h
            },
        ),
        Key::Down | Key::Char('j') => r is Nothing && with_home(
            old_app,
            new_app,
            HomeMenuState {
                selected_option: if h.selected_option < h.options@.len() - 1 {
                    (h.selected_option + 1) as usize
                } else {
                    h.selected_option
                },
                ..h
            },
        ),
        Key::Enter => choose_option_step(old_app, new_app, home, r),
        Key::Char('p') => {
            &&& r is RefreshSuggestions
            &&& new_app == (App {
                state: AppState::PathInput,
                path_input: new_app.path_input,
                path_cursor: new_app.path_cursor,
                ..old_app
            })
            &&& new_app.path_input@ == h.custom_path@
            &&& new_app.path_cursor == h.custom_path@.len()
        },
        Key::Char('+') | Key::Char('=') => r is Nothing && with_home(
            old_app,
            new_app,
            HomeMenuState { min_size_mb: min_nat(h.min_size_mb + 1, 1000) as u64, ..h },
        ),
        Key::Char('-') => r is Nothing && with_home(
            old_app,
            new_app,
            HomeMenuState {
                min_size_mb: if h.min_size_mb > 1 {
                    (h.min_size_mb - 1) as u64
                } else {
                    1u64
                },
                ..h
            },
        ),
        Key::Char('d') => r is Nothing && with_home(
            old_app,
            new_app,
            HomeMenuState {
                max_depth: if h.max_depth == 0 {
                    5usize
                } else {
                    ((h.max_depth + 1) % 11) as usize
                },
                ..h
            },
        ),
        Key::Char('.') => r is Nothing && with_home(
            old_app,
            new_app,
            HomeMenuState { include_hidden: !h.include_hidden, ..h },
        ),
        _ => r is Nothing && new_app == old_app,
    }
}

/// The home screen can take `key`: the list of options is not empty where
/// the key moves down or chooses, the selection lies in the list where it
/// chooses, and the settings the key raises can grow.
pub open spec fn home_key_ok(a: App, key: Key) -> bool {
    &&& is_down_key(key) ==> a.home_menu.options@.len() >= 1
    &&& key == Key::Enter ==> a.home_menu.selected_option < a.home_menu.options@.len()
    &&& (key == Key::Char('+') || key == Key::Char('=')) ==> a.home_menu.min_size_mb < u64::MAX
    &&& key == Key::Char('d') ==> a.home_menu.max_depth < usize::MAX
}

/// What a key does while a path is typed.
pub open spec fn path_key_step(old_app: App, new_app: App, key: Key, path_exists: bool, r: UiAction) -> bool {
    let typed = old_app.path_input@;
    let edited = App { path_input: new_app.path_input, path_cursor: new_app.path_cursor, ..old_app };
    &&& new_app.path_input@ == edited_path(
        key,
        typed,
        old_app.path_cursor as int,
        old_app.home_menu.path_suggestions@,
    )
    &&& new_app.path_cursor as int == edited_cursor(
        key,
        typed,
        old_app.path_cursor as int,
        old_app.home_menu.path_suggestions@,
    )
    &&& key == Key::Esc ==> r is Nothing && new_app == (App { state: AppState::Home, ..edited })
    &&& key == Key::Enter ==> r is Nothing && if typed.len() > 0 && path_exists {
        &&& new_app == (App {
            state: AppState::Home,
            home_menu: HomeMenuState {
                custom_path: new_app.home_menu.custom_path,
                selected_option: 2,
                ..old_app.home_menu
            },
            ..edited
        })
        &&& new_app.home_menu.custom_path@ == typed
    } else {
        new_app == (App { state: AppState::Home, ..edited })
    }
    &&& asks_suggestions(key) ==> r is RefreshSuggestions && new_app == edited
    &&& key != Key::Esc && key != Key::Enter && !asks_suggestions(key) ==> r is Nothing && new_app
        == edited
}

/// The path field can take `key`: the cursor lies within the text where the
/// key edits at the cursor, and can move right.
pub open spec fn path_key_ok(a: App, key: Key) -> bool {
    &&& (key == Key::Backspace || key is Char) ==> a.path_cursor <= a.path_input@.len()
    &&& key == Key::Right ==> a.path_cursor < usize::MAX
    &&& key is Char ==> a.path_input@.len() < usize::MAX
}

/// What a key does while the search of the all-files screen is typed on
/// its own screen.
pub open spec fn search_key_step(old_app: App, new_app: App, key: Key) -> bool {
    let st = old_app.all_files_state;
    if key == Key::Esc || key == Key::Enter {
        new_app == (App {
            state: AppState::AllFiles,
            all_files_state: crate::ui::all_files::AllFilesState { search_active: false, ..st },
            ..old_app
        })
    } else {
        &&& new_app == (App {
            all_files_state: crate::ui::all_files::AllFilesState {
                search_query: new_app.all_files_state.search_query,
                ..st
            },
            ..old_app
        })
        &&& new_app.all_files_state.search_query@ == edited_query(key, st.search_query@)
    }
}

/// `s` without the first occurrence of each of the first `n` items of `xs`,
/// taken in turn.
pub open spec fn without_each(s: Seq<usize>, xs: Seq<usize>, n: nat) -> Seq<usize>
    decreases n,
{
    if n == 0 {
        s
    } else {
        without_first(without_each(s, xs, (n - 1) as nat), xs[n - 1])
    }
}

/// The warning about system files was answered: the pending system entries
/// are unmarked (each once) and no longer pending.
pub open spec fn unmarked_pending(old_app: App, mid: App) -> bool {
    &&& mid == (App {
        marked_for_deletion: mid.marked_for_deletion,
        pending_system_deletions: mid.pending_system_deletions,
        ..old_app
    })
    &&& mid.marked_for_deletion@ == without_each(
        old_app.marked_for_deletion@,
        old_app.pending_system_deletions@,
        old_app.pending_system_deletions@.len(),
    )
    &&& mid.pending_system_deletions@.len() == 0
}

/// The view of the outside work an action asks for with paths.
pub open spec fn action_paths(r: UiAction) -> Option<Seq<Seq<char>>> {
    match r {
        UiAction::MeasureDeletion(ps) => Some(crate::ui::app::views_of(ps@)),
        _ => None,
    }
}

/// What a key does to the warning about marked system files: `y` unmarks
/// them and goes on deleting the rest, if any; `n` or Esc unmarks them and
/// cancels.
pub open spec fn system_warning_key_step(old_app: App, new_app: App, key: Key, r: UiAction) -> bool {
    if key == Key::Char('y') || key == Key::Char('Y') {
        exists|mid: App|
            unmarked_pending(old_app, mid) && if mid.marked_for_deletion@.len() > 0 {
                exists|mid2: App|
                    mid2 == (App { status_message: mid2.status_message, ..mid })
                        && mid2.status_message@ == "System files unmarked"@
                        && delete_marked_step(mid2, new_app, action_paths(r)) && (r is Nothing
                        || r is MeasureDeletion)
            } else {
                &&& r is Nothing
                &&& new_app == (App {
                    status_message: new_app.status_message,
                    state: AppState::Viewing,
                    ..mid
                })
                &&& new_app.status_message@ == "System files unmarked"@
            }
    } else if key == Key::Char('n') || key == Key::Char('N') || key == Key::Esc {
        exists|mid: App|
            unmarked_pending(old_app, mid) && r is Nothing && new_app == (App {
                status_message: new_app.status_message,
                state: AppState::Viewing,
                ..mid
            }) && new_app.status_message@ == "Cancelled"@
    } else {
        r is Nothing && new_app == old_app
    }
}

/// What a key does while a deletion awaits confirmation.
pub open spec fn confirmation_key_step(old_app: App, new_app: App, key: Key, r: UiAction) -> bool {
    &&& (key == Key::Char('y') || key == Key::Char('Y')) ==> match r {
        UiAction::DeletePaths(ps) => ps@.len() > 0 && crate::ui::deletion::confirm_deletion_step(
            old_app,
            new_app,
            crate::ui::app::views_of(ps@),
        ),
        UiAction::Nothing => crate::ui::deletion::confirm_deletion_step(
            old_app,
            new_app,
            Seq::empty(),
        ),
        _ => false,
    }
    &&& (key == Key::Char('n') || key == Key::Char('N') || key == Key::Esc) ==> r is Nothing
        && new_app == (App {
        status_message: new_app.status_message,
        state: AppState::Viewing,
        ..old_app
    }) && new_app.status_message@ == "Cancelled"@
    &&& !(key == Key::Char('y') || key == Key::Char('Y') || key == Key::Char('n') || key
        == Key::Char('N') || key == Key::Esc) ==> r is Nothing && new_app == old_app
}

impl App {
    /// Handles a key on the home screen; `home` is the user's home
    /// directory where there is one.
    pub fn handle_home_input(&mut self, key: Key, home: Option<String>) -> (r: UiAction)
        requires
            home_key_ok(*old(self), key),
        ensures
            home_key_step(*old(self), *final(self), key, opt_view(home), r),
    {
        match key {
            Key::Char('q') => UiAction::Quit,
            Key::Up | Key::Char('k') => {
                if self.home_menu.selected_option > 0 {
                    self.home_menu.selected_option = self.home_menu.selected_option - 1;
                }
                UiAction::Nothing
            },
            Key::Down | Key::Char('j') => {
                if self.home_menu.selected_option < self.home_menu.options.len() - 1 {
                    self.home_menu.selected_option = self.home_menu.selected_option + 1;
                }
                UiAction::Nothing
            },
            Key::Enter => self.choose_option(home),
            Key::Char('p') => {
                self.state = AppState::PathInput;
                self.path_input = chars_of(self.home_menu.custom_path.as_str());
                self.path_cursor = self.path_input.len();
                UiAction::RefreshSuggestions
            },
            Key::Char('+') | Key::Char('=') => {
                let raised = self.home_menu.min_size_mb + 1;
                self.home_menu.min_size_mb = if raised < 1000 {
                    raised
                } else {
                    1000
                };
                UiAction::Nothing
            },
            Key::Char('-') => {
                self.home_menu.min_size_mb = if self.home_menu.min_size_mb > 1 {
                    self.home_menu.min_size_mb - 1
                } else {
                    1
                };
                UiAction::Nothing
            },
            Key::Char('d') => {
                self.home_menu.max_depth = if self.home_menu.max_depth == 0 {
                    5
                } else {
                    (self.home_menu.max_depth + 1) % 11
                };
                UiAction::Nothing
            },
            Key::Char('.') => {
                self.home_menu.include_hidden = !self.home_menu.include_hidden;
                UiAction::Nothing
            },
            _ => UiAction::Nothing,
        }
    }

    /// Chooses the selected home option: opens the path field for a custom
    /// path not typed yet, else starts scanning the option's path.
    pub fn choose_option(&mut self, home: Option<String>) -> (r: UiAction)
        requires
            old(self).home_menu.selected_option < old(self).home_menu.options@.len(),
        ensures
            choose_option_step(*old(self), *final(self), opt_view(home), r),
    {
        let custom = match self.home_menu.options[self.home_menu.selected_option] {
            ScanOption::CustomPath => true,
            _ => false,
        };
        if custom && self.home_menu.custom_path.as_str().is_empty() {
            self.state = AppState::PathInput;
            self.path_input = Vec::new();
            UiAction::RefreshSuggestions
        } else {
            let path = self.get_scan_path_from_option(home);
            self.current_path = path.clone();
            self.scan_path = path;
            self.state = AppState::Scanning;
            UiAction::StartScan
        }
    }

    /// Handles a key while a path is typed; `path_exists` says whether the
    /// typed path exists on disk.
    pub fn handle_path_input(&mut self, key: Key, path_exists: bool) -> (r: UiAction)
        requires
            path_key_ok(*old(self), key),
        ensures
            path_key_step(*old(self), *final(self), key, path_exists, r),
    {
        let suggestions = &self.home_menu.path_suggestions;
        let mut typed = self.path_input.clone();
        proof {
            assert(typed@ =~= self.path_input@);
        }
        let mut cursor = self.path_cursor;
        let result = handle_path_input(key, &mut typed, &mut cursor, suggestions, path_exists);
        self.path_input = typed;
        self.path_cursor = cursor;
        match result {
            PathInputResult::Cancel => {
                self.state = AppState::Home;
                UiAction::Nothing
            },
            PathInputResult::Confirm(p) => {
                self.home_menu.custom_path = p;
                self.home_menu.selected_option = 2;
                self.state = AppState::Home;
                UiAction::Nothing
            },
            PathInputResult::UpdateSuggestions => UiAction::RefreshSuggestions,
            PathInputResult::Nothing => UiAction::Nothing,
        }
    }

    /// Handles a key while the all-files search is typed on its own screen.
    pub fn handle_search_input(&mut self, key: Key)
        ensures
            search_key_step(*old(self), *final(self), key),
    {
        match key {
            Key::Esc | Key::Enter => {
                self.state = AppState::AllFiles;
                self.all_files_state.search_active = false;
            },
            Key::Backspace => {
                pop_char(&mut self.all_files_state.search_query);
            },
            Key::Char(c) => {
                push_char(&mut self.all_files_state.search_query, c);
            },
            _ => {},
        }
    }

    /// Unmarks the pending system entries, each once, and drops them from
    /// the pending list.
    fn unmark_pending(&mut self)
        ensures
            unmarked_pending(*old(self), *final(self)),
    {
        let mut k: usize = 0;
        while k < self.pending_system_deletions.len()
            invariant
                k <= self.pending_system_deletions@.len(),
                *self == (App { marked_for_deletion: self.marked_for_deletion, ..*old(self) }),
                self.marked_for_deletion@ == without_each(
                    old(self).marked_for_deletion@,
                    old(self).pending_system_deletions@,
                    k as nat,
                ),
            decreases self.pending_system_deletions@.len() - k,
        {
            let x = self.pending_system_deletions[k];
            remove_first(&mut self.marked_for_deletion, x);
            k = k + 1;
        }
        self.pending_system_deletions = Vec::new();
    }

    /// Handles a key while the warning about marked system files shows.
    pub fn handle_system_warning_input(&mut self, key: Key) -> (r: UiAction)
        ensures
            system_warning_key_step(*old(self), *final(self), key, r),
    {
        match key {
            Key::Char('y') | Key::Char('Y') => {
                self.unmark_pending();
                let ghost mid = *self;
                self.status_message = String::from_str("System files unmarked");
                if self.marked_for_deletion.len() > 0 {
                    let ghost mid2 = *self;
                    match self.delete_marked() {
                        Some(ps) => {
                            let r = UiAction::MeasureDeletion(ps);
                            assert(delete_marked_step(mid2, *self, action_paths(r)));
                            r
                        },
                        None => UiAction::Nothing,
                    }
                } else {
                    self.state = AppState::Viewing;
                    UiAction::Nothing
                }
            },
            Key::Char('n') | Key::Char('N') | Key::Esc => {
                self.unmark_pending();
                self.state = AppState::Viewing;
                self.status_message = String::from_str("Cancelled");
                UiAction::Nothing
            },
            _ => UiAction::Nothing,
        }
    }

    /// Handles a key while the deletion awaits confirmation: `y` starts
    /// deleting, `n` or Esc cancels.
    pub fn handle_confirmation_input(&mut self, key: Key) -> (r: UiAction)
        ensures
            confirmation_key_step(*old(self), *final(self), key, r),
    {
        match key {
            Key::Char('y') | Key::Char('Y') => {
                let ps = self.confirm_deletion();
                if ps.len() > 0 {
                    UiAction::DeletePaths(ps)
                } else {
                    assert(crate::ui::app::views_of(ps@) =~= Seq::empty());
                    UiAction::Nothing
                }
            },
            Key::Char('n') | Key::Char('N') | Key::Esc => {
                self.state = AppState::Viewing;
                self.status_message = String::from_str("Cancelled");
                UiAction::Nothing
            },
            _ => UiAction::Nothing,
        }
    }
}

/// The first `n` positions of `es` whose entry is safe to delete by its
/// category alone at time `now` and is not a system entry.
pub open spec fn safe_positions_upto(es: Seq<FileEntry>, now: i64, n: nat) -> Seq<usize>
    decreases n,
{
    if n == 0 {
        Seq::empty()
    } else if category_in(es[n - 1], seq![], now).safe() && !es[n - 1].is_system {
        safe_positions_upto(es, now, (n - 1) as nat).push((n - 1) as usize)
    } else {
        safe_positions_upto(es, now, (n - 1) as nat)
    }
}

/// The total size of the entries at the first `n` safe positions.
pub open spec fn safe_bytes_upto(es: Seq<FileEntry>, now: i64, n: nat) -> nat
    decreases n,
{
    if n == 0 {
        0
    } else if category_in(es[n - 1], seq![], now).safe() && !es[n - 1].is_system {
        safe_bytes_upto(es, now, (n - 1) as nat) + es[n - 1].size as nat
    } else {
        safe_bytes_upto(es, now, (n - 1) as nat)
    }
}

proof fn lemma_safe_bytes_bounded(es: Seq<FileEntry>, now: i64, n: nat)
    requires
        n <= es.len(),
    ensures
        safe_bytes_upto(es, now, n) <= size_sum(es.take(n as int)),
    decreases n,
{
    if n > 0 {
        lemma_safe_bytes_bounded(es, now, (n - 1) as nat);
        assert(es.take(n as int).drop_last() =~= es.take(n - 1));
    }
}

/// The positions of the entries that are safe to delete by their category
/// alone at time `now` and are not system entries, with their total size.
pub fn safe_positions_at(es: &[FileEntry], now: i64) -> (r: (Vec<usize>, u64))
    requires
        size_sum(es@) <= u64::MAX,
    ensures
        r.0@ == safe_positions_upto(es@, now, es@.len()),
        r.1 == safe_bytes_upto(es@, now, es@.len()),
{
    let none: Vec<FileEntry> = Vec::new();
    proof {
        assert(none@ =~= Seq::<FileEntry>::empty());
    }
    let mut ps: Vec<usize> = Vec::new();
    let mut total: u64 = 0;
    let mut i: usize = 0;
    while i < es.len()
        invariant
            i <= es@.len(),
            none@ == Seq::<FileEntry>::empty(),
            size_sum(es@) <= u64::MAX,
            ps@ == safe_positions_upto(es@, now, i as nat),
            total == safe_bytes_upto(es@, now, i as nat),
        decreases es@.len() - i,
    {
        proof {
            lemma_safe_bytes_bounded(es@, now, (i + 1) as nat);
            lemma_size_sum_prefix(es@, (i + 1) as nat);
        }
        let c = ClassificationRules::classify_at(&es[i], none.as_slice(), now);
        if c.is_safe_to_delete() && !es[i].is_system {
            ps.push(i);
            total = total + es[i].size;
        }
        i = i + 1;
    }
    (ps, total)
}

/// Marking every safe entry at time `now`, with the status line made of the
/// count, `note` and the total size.
pub open spec fn select_safe_step(old_app: App, new_app: App, now: i64, note: Seq<char>) -> bool {
    let es = scan_entries(old_app);
    if old_app.scan_result is Some {
        &&& new_app == (App {
            marked_for_deletion: new_app.marked_for_deletion,
            status_message: new_app.status_message,
            ..old_app
        })
        &&& new_app.marked_for_deletion@ == safe_positions_upto(es, now, es.len())
        &&& new_app.status_message@ == "✓ "@ + decimal(new_app.marked_for_deletion@.len()) + note
            + human_size(safe_bytes_upto(es, now, es.len()) as u64)
    } else {
        new_app == old_app
    }
}

/// What a key does on the screen that sums up a finished scan.
pub open spec fn scan_details_key_step(old_app: App, new_app: App, key: Key, now: i64, r: UiAction) -> bool {
    match key {
        Key::Char('q') => r is Quit && new_app == old_app,
        Key::Enter | Key::Char('b') => {
            &&& r is Nothing
            &&& new_app == (App {
                state: AppState::Viewing,
                status_message: new_app.status_message,
                ..old_app
            })
            &&& new_app.status_message@ == "Browse files · Space to select · d to delete"@
        },
        Key::Char('c') => r is Nothing && new_app == (App {
            current_view: ViewMode::Categories,
            state: AppState::Viewing,
            ..old_app
        }),
        Key::Char('s') => r is Nothing && exists|mid: App|
            select_safe_step(old_app, mid, now, " safe items selected · "@) && new_app == (App {
                state: AppState::Viewing,
                ..mid
            }),
        Key::Esc => r is Nothing && new_app == (App { state: AppState::Viewing, ..old_app }),
        Key::Char('h') => {
            &&& r is Nothing
            &&& new_app == (App {
                state: AppState::Home,
                scan_result: None,
                marked_for_deletion: new_app.marked_for_deletion,
                navigation_stack: new_app.navigation_stack,
                ..old_app
            })
            &&& new_app.marked_for_deletion@.len() == 0
            &&& new_app.navigation_stack@.len() == 0
        },
        _ => r is Nothing && new_app == old_app,
    }
}

/// What a key does while the browser's search text is typed.
pub open spec fn browse_search_key_step(old_app: App, new_app: App, key: Key) -> bool {
    let q = old_app.browse_search_query@;
    match key {
        Key::Esc => {
            &&& new_app == (App {
                browse_search_active: false,
                browse_search_query: new_app.browse_search_query,
                status_message: new_app.status_message,
                ..old_app
            })
            &&& new_app.browse_search_query@.len() == 0
            &&& new_app.status_message@ == "Search cancelled"@
        },
        Key::Enter => {
            &&& new_app == (App {
                browse_search_active: false,
                status_message: new_app.status_message,
                list_selected: Some(0usize),
                ..old_app
            })
            &&& new_app.status_message@ == if q.len() == 0 {
                "Showing all files"@
            } else {
                "Found "@ + decimal(browse_count(old_app)) + " items matching \""@ + q + "\""@
            }
        },
        Key::Backspace | Key::Char(_) => {
            &&& new_app == (App { browse_search_query: new_app.browse_search_query, ..old_app })
            &&& new_app.browse_search_query@ == edited_query(key, q)
        },
        _ => new_app == old_app,
    }
}

/// The first `n` positions of the listing `r` whose entry is not a system
/// entry and is not among the marked positions `m`.
pub open spec fn addable_upto(es: Seq<FileEntry>, r: Seq<usize>, m: Seq<usize>, n: nat) -> Seq<usize>
    decreases n,
{
    if n == 0 {
        Seq::empty()
    } else if !es[r[n - 1] as int].is_system && !m.contains(r[n - 1]) {
        addable_upto(es, r, m, (n - 1) as nat).push(r[n - 1])
    } else {
        addable_upto(es, r, m, (n - 1) as nat)
    }
}

/// Marks, after the marked positions, every position of the listing `r`
/// that is not a system entry and not marked yet; returns how many are
/// marked then.
fn mark_unmarked(es: &[FileEntry], r: &Vec<usize>, marked: &mut Vec<usize>)
    requires
        forall|k: int| 0 <= k < r@.len() ==> #[trigger] r@[k] < es@.len(),
    ensures
        final(marked)@ == old(marked)@ + addable_upto(es@, r@, old(marked)@, r@.len()),
{
    let snapshot = marked.clone();
    proof {
        assert(snapshot@ =~= old(marked)@);
    }
    let mut k: usize = 0;
    while k < r.len()
        invariant
            k <= r@.len(),
            forall|q: int| 0 <= q < r@.len() ==> #[trigger] r@[q] < es@.len(),
            snapshot@ == old(marked)@,
            marked@ == old(marked)@ + addable_upto(es@, r@, snapshot@, k as nat),
        decreases r@.len() - k,
    {
        let i = r[k];
        if !es[i].is_system && !index_listed(&snapshot, i) {
            marked.push(i);
            assert(marked@ =~= old(marked)@ + addable_upto(es@, r@, snapshot@, (k + 1) as nat));
        }
        k = k + 1;
    }
}

/// What a key does on the browser (the file list or the categories).
pub open spec fn viewing_key_step(old_app: App, new_app: App, key: Key, now: i64, r: UiAction) -> bool {
    if old_app.browse_search_active {
        r is Nothing && browse_search_key_step(old_app, new_app, key)
    } else {
        match key {
            Key::Char('q') => r is Quit && new_app == old_app,
            Key::Down | Key::Char('j') => r is Nothing && next_item_step(old_app, new_app),
            Key::Up | Key::Char('k') => r is Nothing && previous_item_step(old_app, new_app),
            Key::Right | Key::Char('l') | Key::Enter => r is Nothing && if old_app.current_view
                == ViewMode::AllFiles {
                enter_folder_step(old_app, new_app)
            } else {
                enter_category_step(old_app, new_app)
            },
            Key::Left | Key::Backspace => r is Nothing && if old_app.state == AppState::CategoryView {
                &&& new_app == (App {
                    state: AppState::Viewing,
                    selected_category: None,
                    status_message: new_app.status_message,
                    ..old_app
                })
                &&& new_app.status_message@ == "Back"@
            } else {
                go_back_step(old_app, new_app)
            },
            Key::Char(' ') => r is Nothing && toggle_mark_step(old_app, new_app),
            Key::Char('d') => (r is Nothing || r is MeasureDeletion) && delete_marked_step(
                old_app,
                new_app,
                action_paths(r),
            ),
            Key::Char('?') => r is Nothing && new_app == (App { show_help: !old_app.show_help, ..old_app }),
            Key::Char('v') => r is Nothing && switch_view_step(old_app, new_app),
            Key::Char('.') => r is Nothing && toggle_hidden_step(old_app, new_app),
            Key::Char('/') => {
                &&& r is Nothing
                &&& new_app == (App {
                    browse_search_active: true,
                    browse_search_query: new_app.browse_search_query,
                    status_message: new_app.status_message,
                    ..old_app
                })
                &&& new_app.browse_search_query@.len() == 0
                &&& new_app.status_message@ == "Type to search... (Enter to confirm, Esc to cancel)"@
            },
            Key::Char('o') => {
                &&& r is Nothing
                &&& new_app == (App {
                    browse_sort_mode: next_sort(old_app.browse_sort_mode),
                    list_selected: Some(0usize),
                    status_message: new_app.status_message,
                    ..old_app
                })
                &&& new_app.status_message@ == "Sort: "@ + sort_label(next_sort(old_app.browse_sort_mode))
            },
            Key::Char('a') => r is Nothing && if old_app.current_view == ViewMode::AllFiles {
                exists|lst: Seq<usize>|
                    is_browse_listing(lst, old_app) && new_app == (App {
                        marked_for_deletion: new_app.marked_for_deletion,
                        status_message: new_app.status_message,
                        ..old_app
                    }) && new_app.marked_for_deletion@ == old_app.marked_for_deletion@ + addable_upto(
                        scan_entries(old_app),
                        lst,
                        old_app.marked_for_deletion@,
                        lst.len(),
                    ) && new_app.status_message@ == decimal(new_app.marked_for_deletion@.len())
                        + " items marked"@
            } else {
                new_app == old_app
            },
            Key::Char('s') => r is Nothing && select_safe_step(old_app, new_app, now, " safe items · "@),
            Key::Char('c') => {
                &&& r is Nothing
                &&& new_app == (App {
                    marked_for_deletion: new_app.marked_for_deletion,
                    browse_search_query: new_app.browse_search_query,
                    status_message: new_app.status_message,
                    ..old_app
                })
                &&& new_app.marked_for_deletion@.len() == 0
                &&& new_app.browse_search_query@.len() == 0
                &&& new_app.status_message@ == "Selection and search cleared"@
            },
            Key::Char('h') | Key::Char('H') => {
                &&& r is Nothing
                &&& new_app == (App {
                    state: AppState::Home,
                    scan_result: None,
                    marked_for_deletion: new_app.marked_for_deletion,
                    navigation_stack: new_app.navigation_stack,
                    browse_search_query: new_app.browse_search_query,
                    ..old_app
                })
                &&& new_app.marked_for_deletion@.len() == 0
                &&& new_app.navigation_stack@.len() == 0
                &&& new_app.browse_search_query@.len() == 0
            },
            Key::Char('F') => r is Nothing && new_app == (App {
                state: AppState::AllFiles,
                all_files_state: AllFilesState { selected: Some(0usize), ..old_app.all_files_state },
                ..old_app
            }),
            Key::Char('i') => r is Nothing && new_app == (App { state: AppState::ScanDetails, ..old_app }),
            Key::Char('b') => {
                &&& r is Nothing
                &&& new_app == (App {
                    state: AppState::Viewing,
                    current_view: ViewMode::AllFiles,
                    list_selected: Some(0usize),
                    status_message: new_app.status_message,
                    ..old_app
                })
                &&& new_app.status_message@ == "Browse files · Space to select · d to delete"@
            },
            Key::Esc => r is Nothing && if old_app.show_help {
                new_app == (App { show_help: false, ..old_app })
            } else if old_app.browse_search_query@.len() > 0 {
                &&& new_app == (App {
                    browse_search_query: new_app.browse_search_query,
                    list_selected: Some(0usize),
                    status_message: new_app.status_message,
                    ..old_app
                })
                &&& new_app.browse_search_query@.len() == 0
                &&& new_app.status_message@ == "Search cleared"@
            } else if old_app.state == AppState::CategoryView {
                new_app == (App { state: AppState::Viewing, selected_category: None, ..old_app })
            } else if old_app.navigation_stack@.len() > 0 {
                go_back_step(old_app, new_app)
            } else {
                new_app == old_app
            },
            _ => r is Nothing && new_app == old_app,
        }
    }
}

impl App {
    /// Marks every scanned entry that is safe to delete by its category
    /// alone at time `now` and is not a system entry, and says how many and
    /// how large, with `note` between the two.
    pub fn select_safe_at(&mut self, now: i64, note: &str)
        requires
            size_sum(scan_entries(*old(self))) <= u64::MAX,
        ensures
            select_safe_step(*old(self), *final(self), now, note@),
    {
        let (ps, total) = match &self.scan_result {
            Some(result) => safe_positions_at(result.entries.as_slice(), now),
            None => {
                return;
            },
        };
        self.marked_for_deletion = ps;
        let count = decimal_string(self.marked_for_deletion.len() as u64);
        let size = human(total);
        let head = concat3("✓ ", count.as_str(), note);
        self.status_message = concat2(head.as_str(), size.as_str());
    }

    /// Handles a key on the screen that sums up a finished scan, the
    /// categories judged at time `now`.
    pub fn handle_scan_details_input(&mut self, key: Key, now: i64) -> (r: UiAction)
        requires
            size_sum(scan_entries(*old(self))) <= u64::MAX,
        ensures
            scan_details_key_step(*old(self), *final(self), key, now, r),
    {
        match key {
            Key::Char('q') => UiAction::Quit,
            Key::Enter | Key::Char('b') => {
                self.state = AppState::Viewing;
                self.status_message = String::from_str("Browse files · Space to select · d to delete");
                UiAction::Nothing
            },
            Key::Char('c') => {
                self.current_view = ViewMode::Categories;
                self.state = AppState::Viewing;
                UiAction::Nothing
            },
            Key::Char('s') => {
                self.select_safe_at(now, " safe items selected · ");
                let ghost mid = *self;
                self.state = AppState::Viewing;
                UiAction::Nothing
            },
            Key::Esc => {
                self.state = AppState::Viewing;
                UiAction::Nothing
            },
            Key::Char('h') => {
                self.state = AppState::Home;
                self.scan_result = None;
                self.marked_for_deletion = Vec::new();
                self.navigation_stack = Vec::new();
                UiAction::Nothing
            },
            _ => UiAction::Nothing,
        }
    }

    /// Handles a key while the browser's search text is typed.
    fn on_browse_search_key(&mut self, key: Key)
        requires
            size_sum(scan_entries(*old(self))) <= u64::MAX,
        ensures
            browse_search_key_step(*old(self), *final(self), key),
    {
        match key {
            Key::Esc => {
                self.browse_search_active = false;
                self.browse_search_query = String::new();
                self.status_message = String::from_str("Search cancelled");
            },
            Key::Enter => {
                let ghost a0 = *self;
                self.browse_search_active = false;
                if self.browse_search_query.as_str().is_empty() {
                    self.status_message = String::from_str("Showing all files");
                } else {
                    let count = self.get_current_entries().len();
                    proof {
                        lemma_browse_same(a0, *self, scan_entries(a0).len());
                    }
                    let n = decimal_string(count as u64);
                    self.status_message = concat5(
                        "Found ",
                        n.as_str(),
                        " items matching \"",
                        self.browse_search_query.as_str(),
                        "\"",
                    );
                }
                self.list_selected = Some(0);
            },
            Key::Backspace => {
                pop_char(&mut self.browse_search_query);
            },
            Key::Char(c) => {
                push_char(&mut self.browse_search_query, c);
            },
            _ => {},
        }
    }

    /// Handles a key on the browser (the file list or the categories), the
    /// categories judged at time `now`.
    pub fn handle_viewing_input(&mut self, key: Key, now: i64) -> (r: UiAction)
        requires
            size_sum(scan_entries(*old(self))) <= u64::MAX,
        ensures
            viewing_key_step(*old(self), *final(self), key, now, r),
    {
        if self.browse_search_active {
            self.on_browse_search_key(key);
            return UiAction::Nothing;
        }
        match key {
            Key::Char('q') => UiAction::Quit,
            Key::Down | Key::Char('j') => {
                self.next_item();
                UiAction::Nothing
            },
            Key::Up | Key::Char('k') => {
                self.previous_item();
                UiAction::Nothing
            },
            Key::Right | Key::Char('l') | Key::Enter => {
                if self.current_view == ViewMode::AllFiles {
                    self.enter_folder();
                } else {
                    self.enter_category_view();
                }
                UiAction::Nothing
            },
            Key::Left | Key::Backspace => {
                if self.state == AppState::CategoryView {
                    self.state = AppState::Viewing;
                    self.selected_category = None;
                    self.status_message = String::from_str("Back");
                } else {
                    self.go_back();
                }
                UiAction::Nothing
            },
            Key::Char(' ') => {
                self.toggle_mark();
                UiAction::Nothing
            },
            Key::Char('d') => {
                match self.delete_marked() {
                    Some(ps) => UiAction::MeasureDeletion(ps),
                    None => UiAction::Nothing,
                }
            },
            Key::Char('?') => {
                self.show_help = !self.show_help;
                UiAction::Nothing
            },
            Key::Char('v') => {
                self.switch_view();
                UiAction::Nothing
            },
            Key::Char('.') => {
                self.toggle_hidden();
                UiAction::Nothing
            },
            Key::Char('/') => {
                self.browse_search_active = true;
                self.browse_search_query = String::new();
                self.status_message = String::from_str(
                    "Type to search... (Enter to confirm, Esc to cancel)",
                );
                UiAction::Nothing
            },
            Key::Char('o') => {
                self.browse_sort_mode = self.browse_sort_mode.cycle();
                self.list_selected = Some(0);
                self.status_message = concat2("Sort: ", self.browse_sort_mode.name());
                UiAction::Nothing
            },
            Key::Char('a') => {
                if self.current_view == ViewMode::AllFiles {
                    let ghost a0 = *self;
                    let current = self.get_current_entries();
                    match &self.scan_result {
                        Some(result) => {
                            proof {
                                assert forall|k: int| 0 <= k < current@.len() implies #[trigger] current@[k]
                                    < result.entries@.len() by {
                                    assert(crate::ui::all_files::is_sorted_listing(
                                        current@,
                                        scan_entries(a0),
                                        crate::ui::app::display_sizes(scan_entries(a0)),
                                        crate::ui::app::browse_set(a0),
                                        crate::ui::app::browse_mode(a0.browse_sort_mode),
                                    ));
                                }
                            }
                            mark_unmarked(result.entries.as_slice(), &current, &mut self.marked_for_deletion);
                        },
                        None => {
                            proof {
                                assert(current@.len() == 0) by {
                                    assert(browse_count(a0) == 0);
                                }
                                assert(a0.marked_for_deletion@ + addable_upto(
                                    scan_entries(a0),
                                    current@,
                                    a0.marked_for_deletion@,
                                    current@.len(),
                                ) =~= a0.marked_for_deletion@);
                            }
                        },
                    }
                    let n = decimal_string(self.marked_for_deletion.len() as u64);
                    self.status_message = concat2(n.as_str(), " items marked");
                    proof {
                        assert(is_browse_listing(current@, a0));
                    }
                }
                UiAction::Nothing
            },
            Key::Char('s') => {
                self.select_safe_at(now, " safe items · ");
                UiAction::Nothing
            },
            Key::Char('c') => {
                self.marked_for_deletion = Vec::new();
                self.browse_search_query = String::new();
                self.status_message = String::from_str("Selection and search cleared");
                UiAction::Nothing
            },
            Key::Char('h') | Key::Char('H') => {
                self.state = AppState::Home;
                self.scan_result = None;
                self.marked_for_deletion = Vec::new();
                self.navigation_stack = Vec::new();
                self.browse_search_query = String::new();
                UiAction::Nothing
            },
            Key::Char('F') => {
                self.state = AppState::AllFiles;
                self.all_files_state.selected = Some(0);
                UiAction::Nothing
            },
            Key::Char('i') => {
                self.state = AppState::ScanDetails;
                UiAction::Nothing
            },
            Key::Char('b') => {
                self.state = AppState::Viewing;
                self.current_view = ViewMode::AllFiles;
                self.list_selected = Some(0);
                self.status_message = String::from_str("Browse files · Space to select · d to delete");
                UiAction::Nothing
            },
            Key::Esc => {
                if self.show_help {
                    self.show_help = false;
                } else if !self.browse_search_query.as_str().is_empty() {
                    self.browse_search_query = String::new();
                    self.list_selected = Some(0);
                    self.status_message = String::from_str("Search cleared");
                } else if self.state == AppState::CategoryView {
                    self.state = AppState::Viewing;
                    self.selected_category = None;
                } else if self.navigation_stack.len() > 0 {
                    self.go_back();
                }
                UiAction::Nothing
            },
            _ => UiAction::Nothing,
        }
    }
}

/// `s` without any occurrence of `x` among its first `n` items.
pub open spec fn drop_value_upto(s: Seq<usize>, x: usize, n: nat) -> Seq<usize>
    decreases n,
{
    if n == 0 {
        Seq::empty()
    } else if s[n - 1] == x {
        drop_value_upto(s, x, (n - 1) as nat)
    } else {
        drop_value_upto(s, x, (n - 1) as nat).push(s[n - 1])
    }
}

/// Removes every occurrence of `x` from `v`.
fn drop_value(v: &mut Vec<usize>, x: usize)
    ensures
        final(v)@ == drop_value_upto(old(v)@, x, old(v)@.len()),
{
    let mut out: Vec<usize> = Vec::new();
    let mut k: usize = 0;
    while k < v.len()
        invariant
            k <= v@.len(),
            v@ == old(v)@,
            out@ == drop_value_upto(old(v)@, x, k as nat),
        decreases v@.len() - k,
    {
        if v[k] != x {
            out.push(v[k]);
        }
        k = k + 1;
    }
    *v = out;
}

/// `lst` is the listing of the all-files screen of `a` at time `now`.
pub open spec fn all_files_listing(lst: Seq<usize>, a: App, now: i64) -> bool {
    is_sorted_listing(
        lst,
        scan_entries(a),
        plain_sizes(scan_entries(a)),
        shown_set(scan_entries(a), a.all_files_state, a.marked_for_deletion@, now),
        a.all_files_state.sort_mode,
    )
}

/// `new_app` is `old_app` with the all-files selection `sel`.
pub open spec fn with_selection(old_app: App, new_app: App, sel: Option<usize>) -> bool {
    new_app == (App { all_files_state: AllFilesState { selected: sel, ..old_app.all_files_state }, ..old_app })
}

/// The last row of a list of `n` rows (the first where there is none).
pub open spec fn last_row(n: nat) -> int {
    if n > 0 {
        n - 1
    } else {
        0
    }
}

/// The selected row of the all-files screen, the first where none is.
pub open spec fn current_row(a: App) -> int {
    match a.all_files_state.selected {
        Some(i) => i as int,
        None => 0,
    }
}

/// What a key does on the all-files screen, the categories judged at time
/// `now`.
pub open spec fn all_files_key_step(old_app: App, new_app: App, key: Key, now: i64, r: UiAction) -> bool {
    let st = old_app.all_files_state;
    let cur = current_row(old_app);
    let es = scan_entries(old_app);
    if st.search_active {
        r is Nothing && match key {
            Key::Esc | Key::Enter => new_app == (App {
                all_files_state: AllFilesState { search_active: false, ..st },
                ..old_app
            }),
            Key::Backspace | Key::Char(_) => {
                &&& new_app == (App {
                    all_files_state: AllFilesState { search_query: new_app.all_files_state.search_query, ..st },
                    ..old_app
                })
                &&& new_app.all_files_state.search_query@ == edited_query(key, st.search_query@)
            },
            _ => new_app == old_app,
        }
    } else {
        match key {
            Key::Char('q') | Key::Esc => r is Nothing && new_app == (App { state: AppState::Viewing, ..old_app }),
            Key::Down | Key::Char('j') => r is Nothing && if old_app.scan_result is Some {
                exists|lst: Seq<usize>|
                    all_files_listing(lst, old_app, now) && with_selection(
                        old_app,
                        new_app,
                        if cur < last_row(lst.len()) {
                            Some((cur + 1) as usize)
                        } else {
                            st.selected
                        },
                    )
            } else {
                new_app == old_app
            },
            Key::Up | Key::Char('k') => r is Nothing && with_selection(
                old_app,
                new_app,
                if cur > 0 {
                    Some((cur - 1) as usize)
                } else {
                    st.selected
                },
            ),
            Key::PageDown => r is Nothing && if old_app.scan_result is Some {
                exists|lst: Seq<usize>|
                    all_files_listing(lst, old_app, now) && with_selection(
                        old_app,
                        new_app,
                        Some(min_nat(cur + 10, last_row(lst.len())) as usize),
                    )
            } else {
                new_app == old_app
            },
            Key::PageUp => r is Nothing && with_selection(
                old_app,
                new_app,
                Some(
                    (if cur >= 10 {
                        cur - 10
                    } else {
                        0
                    }) as usize,
                ),
            ),
            Key::Home => r is Nothing && with_selection(old_app, new_app, Some(0usize)),
            Key::End => r is Nothing && if old_app.scan_result is Some {
                exists|lst: Seq<usize>|
                    all_files_listing(lst, old_app, now) && with_selection(
                        old_app,
                        new_app,
                        Some(last_row(lst.len()) as usize),
                    )
            } else {
                new_app == old_app
            },
            Key::Char(' ') => r is Nothing && if old_app.scan_result is Some {
                exists|lst: Seq<usize>|
                    all_files_listing(lst, old_app, now) && match st.selected {
                        Some(s) => if s < lst.len() {
                            let i = lst[s as int];
                            &&& new_app == (App {
                                marked_for_deletion: new_app.marked_for_deletion,
                                ..old_app
                            })
                            &&& new_app.marked_for_deletion@ == if old_app.marked_for_deletion@.contains(i) {
                                drop_value_upto(
                                    old_app.marked_for_deletion@,
                                    i,
                                    old_app.marked_for_deletion@.len(),
                                )
                            } else {
                                old_app.marked_for_deletion@.push(i)
                            }
                        } else {
                            new_app == old_app
                        },
                        None => new_app == old_app,
                    }
            } else {
                new_app == old_app
            },
            Key::Char('d') => if old_app.marked_for_deletion@.len() > 0 {
                (r is Nothing || r is MeasureDeletion) && delete_marked_step(old_app, new_app, action_paths(r))
            } else {
                r is Nothing && new_app == old_app
            },
            Key::Char('s') | Key::Char('o') => r is Nothing && new_app == (App {
                all_files_state: AllFilesState {
                    sort_mode: next_sort_mode(st.sort_mode),
                    selected: Some(0usize),
                    ..st
                },
                ..old_app
            }),
            Key::Char('t') => r is Nothing && new_app == (App {
                all_files_state: AllFilesState {
                    filter_mode: next_filter_mode(st.filter_mode),
                    selected: Some(0usize),
                    ..st
                },
                ..old_app
            }),
            Key::Char('/') => {
                &&& r is Nothing
                &&& new_app == (App {
                    all_files_state: AllFilesState {
                        search_active: true,
                        search_query: new_app.all_files_state.search_query,
                        ..st
                    },
                    ..old_app
                })
                &&& new_app.all_files_state.search_query@.len() == 0
            },
            Key::Char('a') => r is Nothing && if old_app.scan_result is Some {
                exists|lst: Seq<usize>|
                    all_files_listing(lst, old_app, now) && new_app == (App {
                        marked_for_deletion: new_app.marked_for_deletion,
                        ..old_app
                    }) && new_app.marked_for_deletion@ == old_app.marked_for_deletion@ + addable_upto(
                        es,
                        lst,
                        old_app.marked_for_deletion@,
                        lst.len(),
                    )
            } else {
                new_app == old_app
            },
            Key::Char('c') => r is Nothing && new_app == (App {
                marked_for_deletion: new_app.marked_for_deletion,
                ..old_app
            }) && new_app.marked_for_deletion@.len() == 0,
            Key::Char('?') => r is Nothing && new_app == (App { show_help: !old_app.show_help, ..old_app }),
            _ => r is Nothing && new_app == old_app,
        }
    }
}

/// The all-files screen can take `key`: a page down stays within `usize`.
pub open spec fn all_files_key_ok(a: App, key: Key) -> bool {
    !a.all_files_state.search_active && key == Key::PageDown ==> current_row(a) + 10 <= usize::MAX
}

/// The keys that move the selection of the all-files screen.
pub open spec fn is_af_move_key(key: Key) -> bool {
    key == Key::Down || key == Key::Char('j') || key == Key::Up || key == Key::Char('k') || key
        == Key::PageDown || key == Key::PageUp || key == Key::Home || key == Key::End
}

/// The keys that mark entries on the all-files screen.
pub open spec fn is_af_mark_key(key: Key) -> bool {
    key == Key::Char(' ') || key == Key::Char('a') || key == Key::Char('c')
}

impl App {
    /// The listing of the all-files screen at time `now`.
    fn all_files_rows(&self, now: i64) -> (lst: Vec<usize>)
        requires
            self.scan_result is Some,
        ensures
            all_files_listing(lst@, *self, now),
    {
        match &self.scan_result {
            Some(result) => get_filtered_entries_at(
                result.entries.as_slice(),
                &self.all_files_state,
                &self.marked_for_deletion,
                now,
            ),
            None => Vec::new(),
        }
    }

    /// Moves the selection of the all-files screen for `key`.
    fn af_move(&mut self, key: Key, now: i64)
        requires
            !old(self).all_files_state.search_active,
            is_af_move_key(key),
            all_files_key_ok(*old(self), key),
        ensures
            all_files_key_step(*old(self), *final(self), key, now, UiAction::Nothing),
    {
        let cur: usize = match self.all_files_state.selected {
            Some(i) => i,
            None => 0,
        };
        match key {
            Key::Down | Key::Char('j') => {
                if self.scan_result.is_some() {
                    let lst = self.all_files_rows(now);
                    let last: usize = if lst.len() > 0 {
                        lst.len() - 1
                    } else {
                        0
                    };
                    if cur < last {
                        self.all_files_state.selected = Some(cur + 1);
                    }
                }
            },
            Key::Up | Key::Char('k') => {
                if cur > 0 {
                    self.all_files_state.selected = Some(cur - 1);
                }
            },
            Key::PageDown => {
                if self.scan_result.is_some() {
                    let lst = self.all_files_rows(now);
                    let last: usize = if lst.len() > 0 {
                        lst.len() - 1
                    } else {
                        0
                    };
                    let down = cur + 10;
                    self.all_files_state.selected = Some(
                        if down <= last {
                            down
                        } else {
                            last
                        },
                    );
                }
            },
            Key::PageUp => {
                self.all_files_state.selected = Some(
                    if cur >= 10 {
                        cur - 10
                    } else {
                        0
                    },
                );
            },
            Key::Home => {
                self.all_files_state.selected = Some(0);
            },
            _ => {
                if self.scan_result.is_some() {
                    let lst = self.all_files_rows(now);
                    self.all_files_state.selected = Some(
                        if lst.len() > 0 {
                            lst.len() - 1
                        } else {
                            0
                        },
                    );
                }
            },
        }
    }

    /// Marks or unmarks entries of the all-files screen for `key`.
    fn af_mark(&mut self, key: Key, now: i64)
        requires
            !old(self).all_files_state.search_active,
            is_af_mark_key(key),
        ensures
            all_files_key_step(*old(self), *final(self), key, now, UiAction::Nothing),
    {
        match key {
            Key::Char(' ') => {
                if self.scan_result.is_some() {
                    let lst = self.all_files_rows(now);
                    match self.all_files_state.selected {
                        Some(sel) => {
                            if sel < lst.len() {
                                let i = lst[sel];
                                if index_listed(&self.marked_for_deletion, i) {
                                    drop_value(&mut self.marked_for_deletion, i);
                                } else {
                                    self.marked_for_deletion.push(i);
                                }
                            }
                        },
                        None => {},
                    }
                }
            },
            Key::Char('a') => {
                if self.scan_result.is_some() {
                    let lst = self.all_files_rows(now);
                    match &self.scan_result {
                        Some(result) => {
                            mark_unmarked(result.entries.as_slice(), &lst, &mut self.marked_for_deletion);
                        },
                        None => {},
                    }
                }
            },
            _ => {
                self.marked_for_deletion = Vec::new();
            },
        }
    }

    /// Handles a key on the all-files screen, the categories judged at time
    /// `now`.
    pub fn handle_all_files_input(&mut self, key: Key, now: i64) -> (r: UiAction)
        requires
            all_files_key_ok(*old(self), key),
        ensures
            all_files_key_step(*old(self), *final(self), key, now, r),
    {
        if self.all_files_state.search_active {
            match key {
                Key::Esc | Key::Enter => {
                    self.all_files_state.search_active = false;
                },
                Key::Backspace => {
                    pop_char(&mut self.all_files_state.search_query);
                },
                Key::Char(c) => {
                    push_char(&mut self.all_files_state.search_query, c);
                },
                _ => {},
            }
            return UiAction::Nothing;
        }
        if key == Key::Down || key == Key::Char('j') || key == Key::Up || key == Key::Char('k') || key
            == Key::PageDown || key == Key::PageUp || key == Key::Home || key == Key::End {
            self.af_move(key, now);
            return UiAction::Nothing;
        }
        if key == Key::Char(' ') || key == Key::Char('a') || key == Key::Char('c') {
            self.af_mark(key, now);
            return UiAction::Nothing;
        }
        match key {
            Key::Char('q') | Key::Esc => {
                self.state = AppState::Viewing;
            },
            Key::Char('d') => {
                if self.marked_for_deletion.len() > 0 {
                    return match self.delete_marked() {
                        Some(ps) => UiAction::MeasureDeletion(ps),
                        None => UiAction::Nothing,
                    };
                }
            },
            Key::Char('s') | Key::Char('o') => {
                self.all_files_state.cycle_sort();
                self.all_files_state.selected = Some(0);
            },
            Key::Char('t') => {
                self.all_files_state.cycle_filter();
                self.all_files_state.selected = Some(0);
            },
            Key::Char('/') => {
                self.all_files_state.search_active = true;
                self.all_files_state.search_query = String::new();
            },
            Key::Char('?') => {
                self.show_help = !self.show_help;
            },
            _ => {},
        }
        UiAction::Nothing
    }
}
proof fn lemma_drop_value_distinct(s: Seq<usize>, x: usize, n: nat)
    requires
        n <= s.len(),
        s.no_duplicates(),
    ensures
        drop_value_upto(s, x, n).no_duplicates(),
        forall|y: usize| #[trigger] drop_value_upto(s, x, n).contains(y) ==> exists|k: int| 0 <= k < n && s[k] == y,
    decreases n,
{
    if n > 0 {
        lemma_drop_value_distinct(s, x, (n - 1) as nat);
        let prev = drop_value_upto(s, x, (n - 1) as nat);
        if s[n - 1] != x {
            let cur = prev.push(s[n - 1]);
            assert(!prev.contains(s[n - 1])) by {
                if prev.contains(s[n - 1]) {
                    let k = choose|k: int| 0 <= k < n - 1 && #[trigger] s[k] == s[n - 1];
                    assert(s[k] == s[n - 1]);
                }
            }
            assert forall|a: int, b: int| 0 <= a < cur.len() && 0 <= b < cur.len() && a != b implies cur[a]
                != cur[b] by {
                if a < prev.len() && b < prev.len() {
                } else if a < prev.len() {
                    assert(prev.contains(cur[a]));
                } else if b < prev.len() {
                    assert(prev.contains(cur[b]));
                }
            }
            assert forall|y: usize| #[trigger] cur.contains(y) implies exists|k: int| 0 <= k < n && s[k] == y by {
                let q = choose|q: int| 0 <= q < cur.len() && cur[q] == y;
                if q < prev.len() {
                    assert(prev.contains(y));
                } else {
                    assert(s[n - 1] == y);
                }
            }
        }
    }
}

proof fn lemma_addable_distinct(es: Seq<FileEntry>, r: Seq<usize>, m: Seq<usize>, n: nat)
    requires
        n <= r.len(),
        forall|a: int, b: int| 0 <= a < r.len() && 0 <= b < r.len() && a != b ==> r[a] != r[b],
    ensures
        addable_upto(es, r, m, n).no_duplicates(),
        forall|y: usize| #[trigger] addable_upto(es, r, m, n).contains(y) ==> !m.contains(y) && !es[y as int].is_system
            && exists|k: int| 0 <= k < n && r[k] == y,
    decreases n,
{
    if n > 0 {
        lemma_addable_distinct(es, r, m, (n - 1) as nat);
        let prev = addable_upto(es, r, m, (n - 1) as nat);
        if !es[r[n - 1] as int].is_system && !m.contains(r[n - 1]) {
            let cur = prev.push(r[n - 1]);
            assert(!prev.contains(r[n - 1])) by {
                if prev.contains(r[n - 1]) {
                    let k = choose|k: int| 0 <= k < n - 1 && #[trigger] r[k] == r[n - 1];
                    assert(r[k] == r[n - 1]);
                }
            }
            assert forall|a: int, b: int| 0 <= a < cur.len() && 0 <= b < cur.len() && a != b implies cur[a]
                != cur[b] by {
                if a < prev.len() && b < prev.len() {
                } else if a < prev.len() {
                    assert(prev.contains(cur[a]));
                } else if b < prev.len() {
                    assert(prev.contains(cur[b]));
                }
            }
            assert forall|y: usize| #[trigger] cur.contains(y) implies !m.contains(y) && !es[y as int].is_system
                && exists|k: int| 0 <= k < n && r[k] == y by {
                let q = choose|q: int| 0 <= q < cur.len() && cur[q] == y;
                if q < prev.len() {
                    assert(prev.contains(y));
                } else {
                    assert(r[n - 1] == y);
                }
            }
        }
    }
}

/// No key of the all-files screen leaves the interface, and none makes an
/// entry marked twice: marks without repeats stay without repeats (the
/// space bar toggles one position, `a` adds only positions not yet marked,
/// `c` clears them).
pub proof fn law_all_files_marks_stay_distinct(old_app: App, new_app: App, key: Key, now: i64, r: UiAction)
    requires
        all_files_key_step(old_app, new_app, key, now, r),
        old_app.marked_for_deletion@.no_duplicates(),
    ensures
        new_app.marked_for_deletion@.no_duplicates(),
        !(r is Quit),
{
    let m = old_app.marked_for_deletion@;
    let st = old_app.all_files_state;
    if !st.search_active {
        match key {
            Key::Char(' ') => {
                if old_app.scan_result is Some {
                    let lst = choose|lst: Seq<usize>|
                        all_files_listing(lst, old_app, now) && match st.selected {
                            Some(s) => if s < lst.len() {
                                let i = lst[s as int];
                                &&& new_app == (App {
                                    marked_for_deletion: new_app.marked_for_deletion,
                                    ..old_app
                                })
                                &&& new_app.marked_for_deletion@ == if m.contains(i) {
                                    drop_value_upto(m, i, m.len())
                                } else {
                                    m.push(i)
                                }
                            } else {
                                new_app == old_app
                            },
                            None => new_app == old_app,
                        };
                    match st.selected {
                        Some(s) => {
                            if s < lst.len() {
                                let i = lst[s as int];
                                if m.contains(i) {
                                    lemma_drop_value_distinct(m, i, m.len());
                                } else {
                                    let n2 = m.push(i);
                                    assert forall|a: int, b: int|
                                        0 <= a < n2.len() && 0 <= b < n2.len() && a != b implies n2[a] != n2[b] by {
                                        if a < m.len() && b < m.len() {
                                        } else if a < m.len() {
                                            assert(m.contains(n2[a]));
                                        } else if b < m.len() {
                                            assert(m.contains(n2[b]));
                                        }
                                    }
                                }
                            }
                        },
                        None => {},
                    }
                }
            },
            Key::Char('a') => {
                if old_app.scan_result is Some {
                    let es = scan_entries(old_app);
                    let lst = choose|lst: Seq<usize>|
                        all_files_listing(lst, old_app, now) && new_app == (App {
                            marked_for_deletion: new_app.marked_for_deletion,
                            ..old_app
                        }) && new_app.marked_for_deletion@ == m + addable_upto(es, lst, m, lst.len());
                    lemma_addable_distinct(es, lst, m, lst.len());
                    let add = addable_upto(es, lst, m, lst.len());
                    let n2 = m + add;
                    assert forall|a: int, b: int| 0 <= a < n2.len() && 0 <= b < n2.len() && a != b implies n2[a]
                        != n2[b] by {
                        if a < m.len() && b < m.len() {
                        } else if a >= m.len() && b >= m.len() {
                            assert(n2[a] == add[a - m.len()]);
                            assert(n2[b] == add[b - m.len()]);
                        } else if a < m.len() {
                            assert(add.contains(n2[b]));
                            assert(m.contains(n2[a]));
                        } else {
                            assert(add.contains(n2[a]));
                            assert(m.contains(n2[b]));
                        }
                    }
                }
            },
            Key::Char('c') => {
                assert(new_app.marked_for_deletion@.len() == 0);
            },
            _ => {},
        }
    }
}

/// The marks hold no position twice and no position of a system entry.
pub open spec fn clean_marks(m: Seq<usize>, es: Seq<FileEntry>) -> bool {
    &&& m.no_duplicates()
    &&& forall|j: int| 0 <= j < m.len() && m[j] < es.len() ==> !es[m[j] as int].is_system
}

/// On the file browser, `a` marks the listed positions that are neither
/// system entries nor marked yet, and leaves the interface running: marks
/// without repeats and without system entries stay so.
pub proof fn law_mark_all_keeps_marks_clean(old_app: App, new_app: App, now: i64, r: UiAction)
    requires
        viewing_key_step(old_app, new_app, Key::Char('a'), now, r),
        !old_app.browse_search_active,
        clean_marks(old_app.marked_for_deletion@, scan_entries(old_app)),
    ensures
        r is Nothing,
        clean_marks(new_app.marked_for_deletion@, scan_entries(new_app)),
{
    let m = old_app.marked_for_deletion@;
    let es = scan_entries(old_app);
    if old_app.current_view == ViewMode::AllFiles {
        let lst = choose|lst: Seq<usize>|
            is_browse_listing(lst, old_app) && new_app == (App {
                marked_for_deletion: new_app.marked_for_deletion,
                status_message: new_app.status_message,
                ..old_app
            }) && new_app.marked_for_deletion@ == m + addable_upto(es, lst, m, lst.len())
                && new_app.status_message@ == decimal(new_app.marked_for_deletion@.len()) + " items marked"@;
        lemma_addable_distinct(es, lst, m, lst.len());
        let add = addable_upto(es, lst, m, lst.len());
        let n2 = m + add;
        assert(scan_entries(new_app) == es);
        assert forall|a: int, b: int| 0 <= a < n2.len() && 0 <= b < n2.len() && a != b implies n2[a] != n2[b] by {
            if a < m.len() && b < m.len() {
            } else if a >= m.len() && b >= m.len() {
                assert(n2[a] == add[a - m.len()]);
                assert(n2[b] == add[b - m.len()]);
            } else if a < m.len() {
                assert(add.contains(n2[b]));
                assert(m.contains(n2[a]));
            } else {
                assert(add.contains(n2[a]));
                assert(m.contains(n2[b]));
            }
        }
        assert forall|j: int| 0 <= j < n2.len() && n2[j] < es.len() implies !es[n2[j] as int].is_system by {
            if j >= m.len() {
                assert(n2[j] == add[j - m.len()]);
                assert(add.contains(n2[j]));
            }
        }
    }
}

/// The interface can take `key` in its current state.
pub open spec fn key_ok(a: App, key: Key) -> bool {
    &&& size_sum(scan_entries(a)) <= u64::MAX
    &&& match a.state {
        AppState::Home => home_key_ok(a, key),
        AppState::PathInput => path_key_ok(a, key),
        AppState::AllFiles => all_files_key_ok(a, key),
        _ => true,
    }
}

/// What a key does, by the screen the interface shows: `home` is the
/// user's home directory, `path_exists` whether the typed path exists, and
/// `now` the time the categories are judged at.
pub open spec fn key_step(
    old_app: App,
    new_app: App,
    key: Key,
    home: Option<Seq<char>>,
    path_exists: bool,
    now: i64,
    r: UiAction,
) -> bool {
    match old_app.state {
        AppState::Home => home_key_step(old_app, new_app, key, home, r),
        AppState::PathInput => path_key_step(old_app, new_app, key, path_exists, r),
        AppState::Scanning => r is Nothing && if key == Key::Char('q') {
            new_app == (App { state: AppState::Home, ..old_app })
        } else {
            new_app == old_app
        },
        AppState::ScanDetails => scan_details_key_step(old_app, new_app, key, now, r),
        AppState::SystemWarning => system_warning_key_step(old_app, new_app, key, r),
        AppState::Confirmation => confirmation_key_step(old_app, new_app, key, r),
        AppState::AllFiles => all_files_key_step(old_app, new_app, key, now, r),
        AppState::Search => r is Nothing && search_key_step(old_app, new_app, key),
        _ => viewing_key_step(old_app, new_app, key, now, r),
    }
}

/// The interface can take the mouse request `m` in its current state.
pub open spec fn mouse_ok(a: App, m: MouseResult) -> bool {
    &&& m is ScrollDown && a.state == AppState::Home ==> a.home_menu.options@.len() >= 1
    &&& m is ScrollDown && a.state == AppState::Scanning ==> a.scan_scroll_offset < usize::MAX
    &&& m is DoubleClick && a.state == AppState::Home ==> a.home_menu.selected_option
        < a.home_menu.options@.len()
}

/// The selected row of the browser, the first where none is.
pub open spec fn list_row(a: App) -> int {
    match a.list_selected {
        Some(i) => i as int,
        None => 0,
    }
}

/// The largest offset the list of recent entries scrolls to: five rows
/// before its end.
pub open spec fn max_scroll(a: App) -> int {
    let n = a.last_progress_snapshot.top_entries@.len();
    if n >= 5 {
        n - 5
    } else {
        0
    }
}

/// What a mouse request does, by the screen the interface shows.
pub open spec fn mouse_step(old_app: App, new_app: App, m: MouseResult, home: Option<Seq<char>>, r: UiAction) -> bool {
    let h = old_app.home_menu;
    match m {
        MouseResult::ScrollUp => r is Nothing && match old_app.state {
            AppState::Home => with_home(
                old_app,
                new_app,
                HomeMenuState {
                    selected_option: if h.selected_option > 0 {
                        (h.selected_option - 1) as usize
                    } else {
                        h.selected_option
                    },
                    ..h
                },
            ),
            AppState::Viewing => new_app == (App {
                list_selected: if list_row(old_app) > 0 {
                    Some((list_row(old_app) - 1) as usize)
                } else {
                    old_app.list_selected
                },
                ..old_app
            }),
            AppState::AllFiles => with_selection(
                old_app,
                new_app,
                if current_row(old_app) > 0 {
                    Some((current_row(old_app) - 1) as usize)
                } else {
                    old_app.all_files_state.selected
                },
            ),
            AppState::Scanning => new_app == (App {
                scan_scroll_offset: if old_app.scan_scroll_offset > 0 {
                    (old_app.scan_scroll_offset - 1) as usize
                } else {
                    0usize
                },
                ..old_app
            }),
            _ => new_app == old_app,
        },
        MouseResult::ScrollDown => r is Nothing && match old_app.state {
            AppState::Home => with_home(
                old_app,
                new_app,
                HomeMenuState {
                    selected_option: if h.selected_option < h.options@.len() - 1 {
                        (h.selected_option + 1) as usize
                    } else {
                        h.selected_option
                    },
                    ..h
                },
            ),
            AppState::Viewing => new_app == (App {
                list_selected: if old_app.scan_result is Some && list_row(old_app) < last_row(
                    scan_entries(old_app).len(),
                ) {
                    Some((list_row(old_app) + 1) as usize)
                } else {
                    old_app.list_selected
                },
                ..old_app
            }),
            AppState::AllFiles => with_selection(
                old_app,
                new_app,
                if old_app.scan_result is Some && current_row(old_app) < last_row(
                    scan_entries(old_app).len(),
                ) {
                    Some((current_row(old_app) + 1) as usize)
                } else {
                    old_app.all_files_state.selected
                },
            ),
            AppState::Scanning => new_app == (App {
                scan_scroll_offset: min_nat(old_app.scan_scroll_offset + 1, max_scroll(old_app)) as usize,
                ..old_app
            }),
            _ => new_app == old_app,
        },
        MouseResult::DoubleClick(_, _) => if old_app.state == AppState::Home {
            choose_option_step(old_app, new_app, home, r)
        } else {
            r is Nothing && new_app == old_app
        },
        _ => r is Nothing && new_app == old_app,
    }
}

/// The recent entries shown while scanning: the last 50 entries found (or
/// fewer), latest first, each with its name, size and the label of its
/// category alone at time `now`.
pub open spec fn recent_entries(es: Seq<FileEntry>, now: i64) -> Seq<(Seq<char>, u64, Seq<char>)> {
    let k = if es.len() < 50 {
        es.len()
    } else {
        50
    };
    Seq::new(
        k,
        |j: int|
            (
                es[es.len() - 1 - j].name@,
                es[es.len() - 1 - j].size,
                category_in(es[es.len() - 1 - j], seq![], now).label(),
            ),
    )
}

/// The characters of the texts of each recent entry.
pub open spec fn triple_views(v: Seq<(String, u64, String)>) -> Seq<(Seq<char>, u64, Seq<char>)> {
    v.map_values(|t: (String, u64, String)| (t.0@, t.1, t.2@))
}

/// `s` is a copy of the progress `p` for drawing, its recent entries
/// judged at time `now`.
pub open spec fn is_snapshot_of(s: ScanProgressSnapshot, p: ScanProgress, now: i64) -> bool {
    &&& s.current_path == p.current_path
    &&& s.files_scanned == p.files_scanned
    &&& s.dirs_scanned == p.dirs_scanned
    &&& s.total_size_scanned == p.total_size_scanned
    &&& s.entries_count == p.entries@.len()
    &&& triple_views(s.top_entries@) == recent_entries(p.entries@, now)
    &&& pair_views(s.category_sizes@) == pair_views(p.category_sizes@)
}

/// How a scan ended.
pub enum ScanOutcome {
    /// It finished with these entries.
    Done(ScanResult),
    /// The scanner reported this error.
    Failed(String),
    /// The scanning task itself failed, with this error.
    Crashed(String),
}

/// What the end of a scan does, the categories judged at time `now`.
pub open spec fn finish_scan_step(old_app: App, new_app: App, outcome: ScanOutcome, now: i64) -> bool {
    match outcome {
        ScanOutcome::Done(result) => {
            let es = result.entries@;
            &&& new_app == (App {
                scan_result: Some(result),
                recommendations: new_app.recommendations,
                categories: new_app.categories,
                status_message: new_app.status_message,
                state: AppState::ScanDetails,
                list_selected: Some(0usize),
                category_selected: Some(0usize),
                ..old_app
            })
            &&& string_views(new_app.recommendations@) == recommendation_lines(
                es,
                categories_of(es, now),
                top_directory(es),
            )
            &&& groups_match(new_app.categories@, groups_of(es, categories_of(es, now)))
            &&& new_app.status_message@ == "Scan complete · "@ + human_size(
                safe_sum(es, categories_of(es, now)) as u64,
            ) + " potential savings"@
        },
        ScanOutcome::Failed(e) => {
            &&& new_app == (App {
                status_message: new_app.status_message,
                state: AppState::Home,
                ..old_app
            })
            &&& new_app.status_message@ == "Scan failed: "@ + e@
        },
        ScanOutcome::Crashed(e) => {
            &&& new_app == (App {
                status_message: new_app.status_message,
                state: AppState::Home,
                ..old_app
            })
            &&& new_app.status_message@ == "Scan error: "@ + e@
        },
    }
}

impl App {
    /// Handles a key at time `now`, by the screen the interface shows:
    /// `home` is the user's home directory where there is one, and
    /// `path_exists` whether the typed path exists on disk.
    pub fn handle_key_at(&mut self, key: Key, home: Option<String>, path_exists: bool, now: i64) -> (r: UiAction)
        requires
            key_ok(*old(self), key),
        ensures
            key_step(*old(self), *final(self), key, opt_view(home), path_exists, now, r),
    {
        match self.state {
            AppState::Home => self.handle_home_input(key, home),
            AppState::PathInput => self.handle_path_input(key, path_exists),
            AppState::Scanning => {
                if key == Key::Char('q') {
                    self.state = AppState::Home;
                }
                UiAction::Nothing
            },
            AppState::ScanDetails => self.handle_scan_details_input(key, now),
            AppState::SystemWarning => self.handle_system_warning_input(key),
            AppState::Confirmation => self.handle_confirmation_input(key),
            AppState::AllFiles => self.handle_all_files_input(key, now),
            AppState::Search => {
                self.handle_search_input(key);
                UiAction::Nothing
            },
            _ => self.handle_viewing_input(key, now),
        }
    }

    /// Handles a key, the categories judged when the clock is read.
    pub fn handle_key(&mut self, key: Key, home: Option<String>, path_exists: bool) -> (r: UiAction)
        requires
            key_ok(*old(self), key),
        ensures
            exists|now: i64| key_step(*old(self), *final(self), key, opt_view(home), path_exists, now, r),
    {
        let now = unix_now();
        self.handle_key_at(key, home, path_exists, now)
    }

    /// Handles a mouse request, by the screen the interface shows; `home` is
    /// the user's home directory where there is one.
    pub fn handle_mouse_event(&mut self, m: MouseResult, home: Option<String>) -> (r: UiAction)
        requires
            mouse_ok(*old(self), m),
        ensures
            mouse_step(*old(self), *final(self), m, opt_view(home), r),
    {
        match m {
            MouseResult::ScrollUp => {
                match self.state {
                    AppState::Home => {
                        if self.home_menu.selected_option > 0 {
                            self.home_menu.selected_option = self.home_menu.selected_option - 1;
                        }
                    },
                    AppState::Viewing => {
                        let cur: usize = match self.list_selected {
                            Some(i) => i,
                            None => 0,
                        };
                        if cur > 0 {
                            self.list_selected = Some(cur - 1);
                        }
                    },
                    AppState::AllFiles => {
                        let cur: usize = match self.all_files_state.selected {
                            Some(i) => i,
                            None => 0,
                        };
                        if cur > 0 {
                            self.all_files_state.selected = Some(cur - 1);
                        }
                    },
                    AppState::Scanning => {
                        if self.scan_scroll_offset > 0 {
                            self.scan_scroll_offset = self.scan_scroll_offset - 1;
                        }
                    },
                    _ => {},
                }
                UiAction::Nothing
            },
            MouseResult::ScrollDown => {
                match self.state {
                    AppState::Home => {
                        if self.home_menu.selected_option < self.home_menu.options.len() - 1 {
                            self.home_menu.selected_option = self.home_menu.selected_option + 1;
                        }
                    },
                    AppState::Viewing => {
                        let n: usize = match &self.scan_result {
                            Some(result) => result.entries.len(),
                            None => 0,
                        };
                        if self.scan_result.is_some() {
                            let cur: usize = match self.list_selected {
                                Some(i) => i,
                                None => 0,
                            };
                            let last: usize = if n > 0 {
                                n - 1
                            } else {
                                0
                            };
                            if cur < last {
                                self.list_selected = Some(cur + 1);
                            }
                        }
                    },
                    AppState::AllFiles => {
                        let n: usize = match &self.scan_result {
                            Some(result) => result.entries.len(),
                            None => 0,
                        };
                        if self.scan_result.is_some() {
                            let cur: usize = match self.all_files_state.selected {
                                Some(i) => i,
                                None => 0,
                            };
                            let last: usize = if n > 0 {
                                n - 1
                            } else {
                                0
                            };
                            if cur < last {
                                self.all_files_state.selected = Some(cur + 1);
                            }
                        }
                    },
                    AppState::Scanning => {
                        let rows = self.last_progress_snapshot.top_entries.len();
                        let limit: usize = if rows >= 5 {
                            rows - 5
                        } else {
                            0
                        };
                        let down = self.scan_scroll_offset + 1;
                        self.scan_scroll_offset = if down <= limit {
                            down
                        } else {
                            limit
                        };
                    },
                    _ => {},
                }
                UiAction::Nothing
            },
            MouseResult::DoubleClick(_, _) => {
                if self.state == AppState::Home {
                    self.choose_option(home)
                } else {
                    UiAction::Nothing
                }
            },
            _ => UiAction::Nothing,
        }
    }

    /// Counts a drawn frame, wrapping at the largest count; says whether
    /// the progress copy is due (every third frame).
    pub fn tick(&mut self) -> (due: bool)
        ensures
            final(self).frame_count == if old(self).frame_count == u32::MAX {
                0
            } else {
                (old(self).frame_count + 1) as u32
            },
            *final(self) == (App { frame_count: final(self).frame_count, ..*old(self) }),
            due == (final(self).frame_count % 3 == 0),
    {
        self.frame_count = if self.frame_count == u32::MAX {
            0
        } else {
            self.frame_count + 1
        };
        self.frame_count % 3 == 0
    }

    /// Handles a key while a scan runs: `q` goes back home and stops
    /// watching the scan (the result is `true`), the up and down keys
    /// scroll the recent entries.
    pub fn on_scan_progress_key(&mut self, key: Key) -> (stop: bool)
        requires
            is_down_key(key) ==> old(self).scan_scroll_offset < usize::MAX,
        ensures
            stop == (key == Key::Char('q')),
            stop ==> *final(self) == (App { state: AppState::Home, ..*old(self) }),
            is_up_key(key) ==> *final(self) == (App {
                scan_scroll_offset: if old(self).scan_scroll_offset > 0 {
                    (old(self).scan_scroll_offset - 1) as usize
                } else {
                    0usize
                },
                ..*old(self)
            }),
            is_down_key(key) ==> *final(self) == (App {
                scan_scroll_offset: min_nat(old(self).scan_scroll_offset + 1, max_scroll(*old(self))) as usize,
                ..*old(self)
            }),
            !stop && !is_up_key(key) && !is_down_key(key) ==> *final(self) == *old(self),
    {
        match key {
            Key::Char('q') => {
                self.state = AppState::Home;
                true
            },
            Key::Up | Key::Char('k') => {
                if self.scan_scroll_offset > 0 {
                    self.scan_scroll_offset = self.scan_scroll_offset - 1;
                }
                false
            },
            Key::Down | Key::Char('j') => {
                let rows = self.last_progress_snapshot.top_entries.len();
                let limit: usize = if rows >= 5 {
                    rows - 5
                } else {
                    0
                };
                let down = self.scan_scroll_offset + 1;
                self.scan_scroll_offset = if down <= limit {
                    down
                } else {
                    limit
                };
                false
            },
            _ => false,
        }
    }

    /// Copies the scan progress `prog` for drawing, the recent entries
    /// judged at time `now`.
    pub fn take_snapshot_at(&mut self, prog: &ScanProgress, now: i64)
        ensures
            *final(self) == (App { last_progress_snapshot: final(self).last_progress_snapshot, ..*old(self) }),
            is_snapshot_of(final(self).last_progress_snapshot, *prog, now),
    {
        let none: Vec<FileEntry> = Vec::new();
        proof {
            assert(none@ =~= Seq::<FileEntry>::empty());
        }
        let es = &prog.entries;
        let n = es.len();
        let k: usize = if n < 50 {
            n
        } else {
            50
        };
        let mut top: Vec<(String, u64, String)> = Vec::new();
        let mut j: usize = 0;
        while j < k
            invariant
                j <= k,
                n == es@.len(),
                k == (if n < 50 { n } else { 50 }),
                none@ == Seq::<FileEntry>::empty(),
                top@.len() == j,
                recent_entries(es@, now).len() == k,
                triple_views(top@) == recent_entries(es@, now).take(j as int),
            decreases k - j,
        {
            let e = &es[n - 1 - j];
            let c = ClassificationRules::classify_at(e, none.as_slice(), now);
            let name = e.name.clone();
            let label = String::from_str(c.as_str());
            let ghost before = top@;
            top.push((name, e.size, label));
            proof {
                let want = recent_entries(es@, now);
                assert(c == category_in(es@[n - 1 - j], seq![], now));
                assert(want[j as int] == (name@, e.size, label@));
                assert(top@ == before.push((name, e.size, label)));
                assert forall|t: int| 0 <= t < j + 1 implies #[trigger] triple_views(top@)[t] == want.take(
                    j + 1,
                )[t] by {
                    if t < j {
                        assert(top@[t] == before[t]);
                        assert(triple_views(before)[t] == want.take(j as int)[t]);
                    }
                }
                assert(triple_views(top@) =~= want.take(j + 1));
            }
            j = j + 1;
        }
        assert(recent_entries(es@, now).take(k as int) =~= recent_entries(es@, now));
        let mut sizes: Vec<(String, u64)> = Vec::new();
        let mut q: usize = 0;
        while q < prog.category_sizes.len()
            invariant
                q <= prog.category_sizes@.len(),
                sizes@.len() == q,
                pair_views(sizes@) == pair_views(prog.category_sizes@).take(q as int),
            decreases prog.category_sizes@.len() - q,
        {
            let g = prog.category_sizes[q].0.clone();
            let b = prog.category_sizes[q].1;
            sizes.push((g, b));
            assert(pair_views(sizes@) =~= pair_views(prog.category_sizes@).take(q + 1));
            q = q + 1;
        }
        assert(pair_views(prog.category_sizes@).take(q as int) =~= pair_views(prog.category_sizes@));
        self.last_progress_snapshot = ScanProgressSnapshot {
            current_path: prog.current_path.clone(),
            files_scanned: prog.files_scanned,
            dirs_scanned: prog.dirs_scanned,
            total_size_scanned: prog.total_size_scanned,
            entries_count: n,
            top_entries: top,
            category_sizes: sizes,
        };
    }

    /// Takes in how a scan ended, the categories judged at time `now`: a
    /// finished scan is kept with its advice, groups and the space it could
    /// free, and its summary shows; a failure goes back home and says so.
    pub fn finish_scan_at(&mut self, outcome: ScanOutcome, now: i64)
        requires
            outcome matches ScanOutcome::Done(res) ==> size_sum(res.entries@) <= u64::MAX,
        ensures
            finish_scan_step(*old(self), *final(self), outcome, now),
    {
        match outcome {
            ScanOutcome::Done(result) => {
                let es = result.entries.as_slice();
                self.recommendations = Analyzer::get_recommendations_at(es, now);
                self.categories = Analyzer::group_by_category_at(es, now);
                let savings = Analyzer::calculate_safe_savings_at(es, now);
                let size = human(savings);
                self.status_message = concat3("Scan complete · ", size.as_str(), " potential savings");
                self.scan_result = Some(result);
                self.state = AppState::ScanDetails;
                self.list_selected = Some(0);
                self.category_selected = Some(0);
            },
            ScanOutcome::Failed(e) => {
                self.status_message = concat2("Scan failed: ", e.as_str());
                self.state = AppState::Home;
            },
            ScanOutcome::Crashed(e) => {
                self.status_message = concat2("Scan error: ", e.as_str());
                self.state = AppState::Home;
            },
        }
    }

    /// Copies the scan progress `prog` for drawing, the recent entries
    /// judged when the clock is read.
    pub fn take_snapshot(&mut self, prog: &ScanProgress)
        ensures
            *final(self) == (App { last_progress_snapshot: final(self).last_progress_snapshot, ..*old(self) }),
            exists|now: i64| is_snapshot_of(final(self).last_progress_snapshot, *prog, now),
    {
        let now = unix_now();
        self.take_snapshot_at(prog, now);
    }

    /// Takes in how a scan ended, the categories judged when the clock is
    /// read.
    pub fn finish_scan(&mut self, outcome: ScanOutcome)
        requires
            outcome matches ScanOutcome::Done(res) ==> size_sum(res.entries@) <= u64::MAX,
        ensures
            exists|now: i64| finish_scan_step(*old(self), *final(self), outcome, now),
    {
        let now = unix_now();
        self.finish_scan_at(outcome, now);
    }
}

} // verus!
