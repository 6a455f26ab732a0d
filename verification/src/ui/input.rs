//! Keyboard input of the terminal interface: which key asks for what on each
//! screen, and the editing of the path and search fields.
use vstd::prelude::*;
use crate::text::{chars_of, push_char, pop_char, string_of_chars};

verus! {

/// A key the terminal reported.
#[derive(Debug, Clone, Copy, PartialEq, Eq, Structural)]
pub enum Key {
    Char(char),
    Up,
    Down,
    Left,
    Right,
    Enter,
    Esc,
    Tab,
    Backspace,
    Delete,
    PageUp,
    PageDown,
    Home,
    End,
    Other,
}

/// The key moves a selection up: the up arrow or `k`.
pub open spec fn is_up_key(key: Key) -> bool {
    key == Key::Up || key == Key::Char('k')
}

/// The key moves a selection down: the down arrow or `j`.
pub open spec fn is_down_key(key: Key) -> bool {
    key == Key::Down || key == Key::Char('j')
}

/// What a key asks for on the home screen.
#[derive(Debug, Clone, Copy, PartialEq, Eq, Structural)]
pub enum HomeInputResult {
    Nothing,
    Quit,
    StartScan,
    OpenPathInput,
    IncreaseMinSize,
    DecreaseMinSize,
    CycleDepth,
    ToggleHidden,
}

/// The request a key makes on the home screen.
pub open spec fn home_result(key: Key) -> HomeInputResult {
    match key {
        Key::Char('q') => HomeInputResult::Quit,
        Key::Enter => HomeInputResult::StartScan,
        Key::Char('p') => HomeInputResult::OpenPathInput,
        Key::Char('+') => HomeInputResult::IncreaseMinSize,
        Key::Char('=') => HomeInputResult::IncreaseMinSize,
        Key::Char('-') => HomeInputResult::DecreaseMinSize,
        Key::Char('d') => HomeInputResult::CycleDepth,
        Key::Char('.') => HomeInputResult::ToggleHidden,
        _ => HomeInputResult::Nothing,
    }
}

/// The selected home option after `key`: up and down move by one and stop at
/// the ends of the list.
pub open spec fn home_selection(key: Key, selected: usize, options_len: usize) -> usize {
    if is_up_key(key) && selected > 0 {
        (selected - 1) as usize
    } else if is_down_key(key) && selected < options_len - 1 {
        (selected + 1) as usize
    } else {
        selected
    }
}

/// Handles a key on the home screen: moves the selection and tells what else
/// the key asks for.
pub fn handle_home_input(
    key: Key,
    selected_option: &mut usize,
    options_len: usize,
    custom_path: &str,
) -> (r: HomeInputResult)
    requires
        is_down_key(key) ==> options_len >= 1,
    ensures
        r == home_result(key),
        *final(selected_option) == home_selection(key, *old(selected_option), options_len),
{
    match key {
        Key::Char('q') => HomeInputResult::Quit,
        Key::Up | Key::Char('k') => {
            if *selected_option > 0 {
                *selected_option -= 1;
            }
            HomeInputResult::Nothing
        },
        Key::Down | Key::Char('j') => {
            if *selected_option < options_len - 1 {
                *selected_option += 1;
            }
            HomeInputResult::Nothing
        },
        Key::Enter => HomeInputResult::StartScan,
        Key::Char('p') => HomeInputResult::OpenPathInput,
        Key::Char('+') | Key::Char('=') => HomeInputResult::IncreaseMinSize,
        Key::Char('-') => HomeInputResult::DecreaseMinSize,
        Key::Char('d') => HomeInputResult::CycleDepth,
        Key::Char('.') => HomeInputResult::ToggleHidden,
        _ => HomeInputResult::Nothing,
    }
}

/// What a key asks for while a path is typed.
#[derive(Debug, Clone)]
pub enum PathInputResult {
    Nothing,
    Cancel,
    Confirm(String),
    UpdateSuggestions,
}

/// The path field after `key`, the cursor counting characters.
pub open spec fn edited_path(key: Key, path: Seq<char>, cursor: int, suggestions: Seq<String>) -> Seq<char> {
    match key {
        Key::Tab => if suggestions.len() > 0 {
            suggestions[0]@
        } else {
            path
        },
        Key::Backspace => if cursor > 0 {
            path.remove(cursor - 1)
        } else {
            path
        },
        Key::Delete => if cursor < path.len() {
            path.remove(cursor)
        } else {
            path
        },
        Key::Char(c) => path.insert(cursor, c),
        _ => path,
    }
}

/// The cursor after `key`.
pub open spec fn edited_cursor(key: Key, path: Seq<char>, cursor: int, suggestions: Seq<String>) -> int {
    match key {
        Key::Tab => if suggestions.len() > 0 {
            suggestions[0]@.len() as int
        } else {
            cursor
        },
        Key::Backspace => if cursor > 0 {
            cursor - 1
        } else {
            cursor
        },
        Key::Left => if cursor > 0 {
            cursor - 1
        } else {
            0
        },
        Key::Right => if cursor + 1 <= path.len() {
            cursor + 1
        } else {
            path.len() as int
        },
        Key::Char(_) => cursor + 1,
        _ => cursor,
    }
}

/// The keys that change the text of the path field and so ask for new
/// suggestions.
pub open spec fn asks_suggestions(key: Key) -> bool {
    key == Key::Tab || key == Key::Backspace || key == Key::Delete || key is Char
}

/// Handles a key while a path is typed.  Enter confirms a non-empty path
/// that exists (`path_exists` says whether the typed path exists on disk),
/// and cancels otherwise; Esc cancels; Tab takes the first suggestion; the
/// other keys edit the field at the cursor.
pub fn handle_path_input(
    key: Key,
    path_input: &mut Vec<char>,
    cursor_pos: &mut usize,
    suggestions: &Vec<String>,
    path_exists: bool,
) -> (r: PathInputResult)
    requires
        (key == Key::Backspace || key is Char) ==> *old(cursor_pos) <= old(path_input)@.len(),
        key == Key::Right ==> *old(cursor_pos) < usize::MAX,
        key is Char ==> old(path_input)@.len() < usize::MAX,
    ensures
        final(path_input)@ == edited_path(key, old(path_input)@, *old(cursor_pos) as int, suggestions@),
        *final(cursor_pos) as int == edited_cursor(
            key,
            old(path_input)@,
            *old(cursor_pos) as int,
            suggestions@,
        ),
        key == Key::Esc ==> r is Cancel,
        key == Key::Enter ==> (match r {
            PathInputResult::Confirm(p) => p@ == old(path_input)@ && old(path_input)@.len() > 0
                && path_exists,
            PathInputResult::Cancel => !(old(path_input)@.len() > 0 && path_exists),
            _ => false,
        }),
        asks_suggestions(key) ==> r is UpdateSuggestions,
        key != Key::Esc && key != Key::Enter && !asks_suggestions(key) ==> r is Nothing,
{
    match key {
        Key::Esc => PathInputResult::Cancel,
        Key::Enter => {
            if path_input.len() > 0 && path_exists {
                PathInputResult::Confirm(string_of_chars(path_input))
            } else {
                PathInputResult::Cancel
            }
        },
        Key::Tab => {
            if suggestions.len() > 0 {
                *path_input = chars_of(suggestions[0].as_str());
                *cursor_pos = path_input.len();
            }
            PathInputResult::UpdateSuggestions
        },
        Key::Backspace => {
            if *cursor_pos > 0 {
                path_input.remove(*cursor_pos - 1);
                *cursor_pos -= 1;
            }
            PathInputResult::UpdateSuggestions
        },
        Key::Delete => {
            if *cursor_pos < path_input.len() {
                path_input.remove(*cursor_pos);
            }
            PathInputResult::UpdateSuggestions
        },
        Key::Left => {
            if *cursor_pos > 0 {
                *cursor_pos -= 1;
            }
            PathInputResult::Nothing
        },
        Key::Right => {
            let next = *cursor_pos + 1;
            *cursor_pos = if next <= path_input.len() {
                next
            } else {
                path_input.len()
            };
            PathInputResult::Nothing
        },
        Key::Char(c) => {
            path_input.insert(*cursor_pos, c);
            *cursor_pos += 1;
            PathInputResult::UpdateSuggestions
        },
        _ => PathInputResult::Nothing,
    }
}

/// What a key asks for on the browsing screen.
#[derive(Debug, Clone, Copy, PartialEq, Eq, Structural)]
pub enum ViewingInputResult {
    Nothing,
    Quit,
    NextItem,
    PreviousItem,
    Enter,
    Back,
    ToggleMark,
    Delete,
    ToggleHelp,
    SwitchView,
    ToggleHidden,
    SelectAll,
    SelectSafe,
    ClearSelection,
    GoHome,
    OpenAllFiles,
    OpenSearch,
    Escape,
    PageDown,
    PageUp,
}

/// The request a key makes on the browsing screen.
pub open spec fn viewing_result(key: Key) -> ViewingInputResult {
    match key {
        Key::Char('q') => ViewingInputResult::Quit,
        Key::Down | Key::Char('j') => ViewingInputResult::NextItem,
        Key::Up | Key::Char('k') => ViewingInputResult::PreviousItem,
        Key::Right | Key::Char('l') | Key::Enter => ViewingInputResult::Enter,
        Key::Left | Key::Backspace => ViewingInputResult::Back,
        Key::Char(' ') => ViewingInputResult::ToggleMark,
        Key::Char('d') => ViewingInputResult::Delete,
        Key::Char('?') => ViewingInputResult::ToggleHelp,
        Key::Char('v') => ViewingInputResult::SwitchView,
        Key::Char('.') => ViewingInputResult::ToggleHidden,
        Key::Char('a') => ViewingInputResult::SelectAll,
        Key::Char('s') => ViewingInputResult::SelectSafe,
        Key::Char('c') => ViewingInputResult::ClearSelection,
        Key::Char('h') => ViewingInputResult::GoHome,
        Key::Char('f') => ViewingInputResult::OpenAllFiles,
        Key::Char('/') => ViewingInputResult::OpenSearch,
        Key::Esc => ViewingInputResult::Escape,
        Key::PageDown => ViewingInputResult::PageDown,
        Key::PageUp => ViewingInputResult::PageUp,
        _ => ViewingInputResult::Nothing,
    }
}

/// Tells what a key asks for on the browsing screen.
pub fn handle_viewing_input(key: Key) -> (r: ViewingInputResult)
    ensures
        r == viewing_result(key),
{
    match key {
        Key::Char('q') => ViewingInputResult::Quit,
        Key::Down | Key::Char('j') => ViewingInputResult::NextItem,
        Key::Up | Key::Char('k') => ViewingInputResult::PreviousItem,
        Key::Right | Key::Char('l') | Key::Enter => ViewingInputResult::Enter,
        Key::Left | Key::Backspace => ViewingInputResult::Back,
        Key::Char(' ') => ViewingInputResult::ToggleMark,
        Key::Char('d') => ViewingInputResult::Delete,
        Key::Char('?') => ViewingInputResult::ToggleHelp,
        Key::Char('v') => ViewingInputResult::SwitchView,
        Key::Char('.') => ViewingInputResult::ToggleHidden,
        Key::Char('a') => ViewingInputResult::SelectAll,
        Key::Char('s') => ViewingInputResult::SelectSafe,
        Key::Char('c') => ViewingInputResult::ClearSelection,
        Key::Char('h') => ViewingInputResult::GoHome,
        Key::Char('f') => ViewingInputResult::OpenAllFiles,
        Key::Char('/') => ViewingInputResult::OpenSearch,
        Key::Esc => ViewingInputResult::Escape,
        Key::PageDown => ViewingInputResult::PageDown,
        Key::PageUp => ViewingInputResult::PageUp,
        _ => ViewingInputResult::Nothing,
    }
}

/// What a key asks for on the all-files screen.
#[derive(Debug, Clone, Copy, PartialEq, Eq, Structural)]
pub enum AllFilesInputResult {
    Nothing,
    Quit,
    NextItem,
    PreviousItem,
    ToggleMark,
    Delete,
    CycleSort,
    CycleFilter,
    OpenSearch,
    SelectSafe,
    SelectAll,
    ClearSelection,
    OpenItem,
    Back,
    PageDown,
    PageUp,
}

/// The request a key makes on the all-files screen.
pub open spec fn all_files_result(key: Key) -> AllFilesInputResult {
    match key {
        Key::Char('q') => AllFilesInputResult::Quit,
        Key::Down | Key::Char('j') => AllFilesInputResult::NextItem,
        Key::Up | Key::Char('k') => AllFilesInputResult::PreviousItem,
        Key::Char(' ') => AllFilesInputResult::ToggleMark,
        Key::Char('d') => AllFilesInputResult::Delete,
        Key::Char('o') => AllFilesInputResult::CycleSort,
        Key::Char('t') => AllFilesInputResult::CycleFilter,
        Key::Char('/') => AllFilesInputResult::OpenSearch,
        Key::Char('s') => AllFilesInputResult::SelectSafe,
        Key::Char('a') => AllFilesInputResult::SelectAll,
        Key::Char('c') => AllFilesInputResult::ClearSelection,
        Key::Enter => AllFilesInputResult::OpenItem,
        Key::Esc => AllFilesInputResult::Back,
        Key::PageDown => AllFilesInputResult::PageDown,
        Key::PageUp => AllFilesInputResult::PageUp,
        _ => AllFilesInputResult::Nothing,
    }
}

/// Tells what a key asks for on the all-files screen.
pub fn handle_all_files_input(key: Key) -> (r: AllFilesInputResult)
    ensures
        r == all_files_result(key),
{
    match key {
        Key::Char('q') => AllFilesInputResult::Quit,
        Key::Down | Key::Char('j') => AllFilesInputResult::NextItem,
        Key::Up | Key::Char('k') => AllFilesInputResult::PreviousItem,
        Key::Char(' ') => AllFilesInputResult::ToggleMark,
        Key::Char('d') => AllFilesInputResult::Delete,
        Key::Char('o') => AllFilesInputResult::CycleSort,
        Key::Char('t') => AllFilesInputResult::CycleFilter,
        Key::Char('/') => AllFilesInputResult::OpenSearch,
        Key::Char('s') => AllFilesInputResult::SelectSafe,
        Key::Char('a') => AllFilesInputResult::SelectAll,
        Key::Char('c') => AllFilesInputResult::ClearSelection,
        Key::Enter => AllFilesInputResult::OpenItem,
        Key::Esc => AllFilesInputResult::Back,
        Key::PageDown => AllFilesInputResult::PageDown,
        Key::PageUp => AllFilesInputResult::PageUp,
        _ => AllFilesInputResult::Nothing,
    }
}

/// The answer a key gives to a confirmation question.
#[derive(Debug, Clone, Copy, PartialEq, Eq, Structural)]
pub enum ConfirmationResult {
    Nothing,
    Confirm,
    Cancel,
}

/// The answer `key` gives: `y` confirms, `n` or Esc cancels, in either case.
pub open spec fn confirmation_result(key: Key) -> ConfirmationResult {
    match key {
        Key::Char('y') | Key::Char('Y') => ConfirmationResult::Confirm,
        Key::Char('n') | Key::Char('N') | Key::Esc => ConfirmationResult::Cancel,
        _ => ConfirmationResult::Nothing,
    }
}

/// Tells what a key answers to a confirmation question.
pub fn handle_confirmation_input(key: Key) -> (r: ConfirmationResult)
    ensures
        r == confirmation_result(key),
{
    match key {
        Key::Char('y') | Key::Char('Y') => ConfirmationResult::Confirm,
        Key::Char('n') | Key::Char('N') | Key::Esc => ConfirmationResult::Cancel,
        _ => ConfirmationResult::Nothing,
    }
}

/// What a key does to a search field.
#[derive(Debug, Clone, Copy, PartialEq, Eq, Structural)]
pub enum SearchInputResult {
    Nothing,
    Close,
    Update,
}

/// The search text after `key`: Esc empties it, Backspace drops its last
/// character, a character key appends that character.
pub open spec fn edited_query(key: Key, q: Seq<char>) -> Seq<char> {
    match key {
        Key::Esc => Seq::empty(),
        Key::Backspace => if q.len() > 0 {
            q.drop_last()
        } else {
            q
        },
        Key::Char(c) => q.push(c),
        _ => q,
    }
}

/// What `key` does to a search: Esc and Enter close it, Backspace and
/// character keys update it.
pub open spec fn search_result(key: Key) -> SearchInputResult {
    match key {
        Key::Esc | Key::Enter => SearchInputResult::Close,
        Key::Backspace | Key::Char(_) => SearchInputResult::Update,
        _ => SearchInputResult::Nothing,
    }
}

/// Handles a key while a search is typed.
pub fn handle_search_input(key: Key, search_query: &mut String) -> (r: SearchInputResult)
    ensures
        r == search_result(key),
        final(search_query)@ == edited_query(key, old(search_query)@),
{
    match key {
        Key::Esc => {
            *search_query = String::new();
            SearchInputResult::Close
        },
        Key::Enter => SearchInputResult::Close,
        Key::Backspace => {
            pop_char(search_query);
            SearchInputResult::Update
        },
        Key::Char(c) => {
            push_char(search_query, c);
            SearchInputResult::Update
        },
        _ => SearchInputResult::Nothing,
    }
}

/// Typing a character and then pressing Backspace leaves the path field
/// and its cursor as they were.
pub proof fn law_type_then_backspace(path: Seq<char>, cursor: int, c: char, suggestions: Seq<String>)
    requires
        0 <= cursor <= path.len(),
    ensures
        edited_path(
            Key::Backspace,
            edited_path(Key::Char(c), path, cursor, suggestions),
            edited_cursor(Key::Char(c), path, cursor, suggestions),
            suggestions,
        ) == path,
        edited_cursor(
            Key::Backspace,
            edited_path(Key::Char(c), path, cursor, suggestions),
            edited_cursor(Key::Char(c), path, cursor, suggestions),
            suggestions,
        ) == cursor,
{
    assert(path.insert(cursor, c).remove(cursor) =~= path);
}

/// Typing a character into a search and then pressing Backspace leaves the
/// search text as it was.
pub proof fn law_search_type_then_backspace(query: Seq<char>, c: char)
    ensures
        edited_query(Key::Backspace, edited_query(Key::Char(c), query)) == query,
{
    assert(query.push(c).drop_last() =~= query);
}

} // verus!
