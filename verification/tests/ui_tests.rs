use disk_cleaner::models::{FileEntry, ScanProgress, ScanResult, StorageInfo};
use disk_cleaner::ui::all_files::{get_filtered_entries_at, AllFilesState, FilterMode, SortMode};
use disk_cleaner::ui::app::{suggestion_base, App};
use disk_cleaner::ui::events::{ScanOutcome, UiAction};
use disk_cleaner::ui::input::{
    handle_all_files_input, handle_confirmation_input, handle_home_input, handle_path_input,
    handle_search_input, handle_viewing_input, AllFilesInputResult, ConfirmationResult,
    HomeInputResult, Key, PathInputResult, SearchInputResult, ViewingInputResult,
};
use disk_cleaner::ui::mouse::{
    calculate_home_option_clicked, calculate_list_item_clicked, click_in_area,
    process_mouse_event, MouseButton, MouseEvent, MouseKind, MouseResult, Rect,
};
use disk_cleaner::ui::types::{AppState, BrowseSortMode, HomeMenuState, ScanOption, ViewMode};

const NOW: i64 = 1_700_000_000;

fn file(path: &str, name: &str, size: u64) -> FileEntry {
    FileEntry {
        path: path.to_string(),
        size,
        is_dir: false,
        is_hidden: name.starts_with('.'),
        is_system: false,
        modified: NOW - 100,
        name: name.to_string(),
    }
}

fn dir(path: &str, name: &str) -> FileEntry {
    FileEntry { is_dir: true, ..file(path, name, 0) }
}

fn scanned_app() -> App {
    let mut app = App::new("/s".to_string(), StorageInfo::default());
    app.scan_result = Some(ScanResult {
        entries: vec![
            dir("/s/sub", "sub"),
            file("/s/sub/inner.bin", "inner.bin", 500),
            file("/s/b.txt", "b.txt", 100),
            file("/s/.hidden", ".hidden", 5),
            file("/s/a.log", "a.log", 300),
        ],
    });
    app.state = AppState::Viewing;
    app.list_selected = Some(0);
    app
}

#[test]
fn home_keys() {
    let mut sel = 1usize;
    assert_eq!(handle_home_input(Key::Up, &mut sel, 6, ""), HomeInputResult::Nothing);
    assert_eq!(sel, 0);
    assert_eq!(handle_home_input(Key::Char('k'), &mut sel, 6, ""), HomeInputResult::Nothing);
    assert_eq!(sel, 0);
    sel = 5;
    handle_home_input(Key::Down, &mut sel, 6, "");
    assert_eq!(sel, 5);
    assert_eq!(handle_home_input(Key::Char('q'), &mut sel, 6, ""), HomeInputResult::Quit);
    assert_eq!(handle_home_input(Key::Enter, &mut sel, 6, ""), HomeInputResult::StartScan);
    assert_eq!(handle_home_input(Key::Char('='), &mut sel, 6, ""), HomeInputResult::IncreaseMinSize);
    assert_eq!(handle_home_input(Key::Char('.'), &mut sel, 6, ""), HomeInputResult::ToggleHidden);
    assert_eq!(handle_home_input(Key::Tab, &mut sel, 6, ""), HomeInputResult::Nothing);
}

#[test]
fn path_field_editing() {
    let mut text: Vec<char> = "/ab".chars().collect();
    let mut cursor = 1usize;
    let none: Vec<String> = Vec::new();
    assert!(matches!(
        handle_path_input(Key::Char('x'), &mut text, &mut cursor, &none, false),
        PathInputResult::UpdateSuggestions
    ));
    assert_eq!(text.iter().collect::<String>(), "/xab");
    assert_eq!(cursor, 2);
    handle_path_input(Key::Backspace, &mut text, &mut cursor, &none, false);
    assert_eq!(text.iter().collect::<String>(), "/ab");
    assert_eq!(cursor, 1);
    handle_path_input(Key::Delete, &mut text, &mut cursor, &none, false);
    assert_eq!(text.iter().collect::<String>(), "/b");
    handle_path_input(Key::Right, &mut text, &mut cursor, &none, false);
    handle_path_input(Key::Right, &mut text, &mut cursor, &none, false);
    assert_eq!(cursor, 2);
    handle_path_input(Key::Left, &mut text, &mut cursor, &none, false);
    assert_eq!(cursor, 1);
    match handle_path_input(Key::Enter, &mut text, &mut cursor, &none, true) {
        PathInputResult::Confirm(p) => assert_eq!(p, "/b"),
        _ => panic!("expected a confirmed path"),
    }
    assert!(matches!(handle_path_input(Key::Enter, &mut text, &mut cursor, &none, false), PathInputResult::Cancel));
    assert!(matches!(handle_path_input(Key::Esc, &mut text, &mut cursor, &none, true), PathInputResult::Cancel));
    let sugg = vec!["/home/me".to_string()];
    handle_path_input(Key::Tab, &mut text, &mut cursor, &sugg, false);
    assert_eq!(text.iter().collect::<String>(), "/home/me");
    assert_eq!(cursor, 8);
}

#[test]
fn screen_key_maps() {
    assert_eq!(handle_viewing_input(Key::Char('j')), ViewingInputResult::NextItem);
    assert_eq!(handle_viewing_input(Key::Backspace), ViewingInputResult::Back);
    assert_eq!(handle_viewing_input(Key::Char('f')), ViewingInputResult::OpenAllFiles);
    assert_eq!(handle_viewing_input(Key::Char('z')), ViewingInputResult::Nothing);
    assert_eq!(handle_all_files_input(Key::Char('o')), AllFilesInputResult::CycleSort);
    assert_eq!(handle_all_files_input(Key::Esc), AllFilesInputResult::Back);
    assert_eq!(handle_confirmation_input(Key::Char('Y')), ConfirmationResult::Confirm);
    assert_eq!(handle_confirmation_input(Key::Esc), ConfirmationResult::Cancel);
    assert_eq!(handle_confirmation_input(Key::Char('x')), ConfirmationResult::Nothing);
    let mut q = String::from("ab");
    assert_eq!(handle_search_input(Key::Char('c'), &mut q), SearchInputResult::Update);
    assert_eq!(q, "abc");
    assert_eq!(handle_search_input(Key::Backspace, &mut q), SearchInputResult::Update);
    assert_eq!(q, "ab");
    assert_eq!(handle_search_input(Key::Esc, &mut q), SearchInputResult::Close);
    assert_eq!(q, "");
}

#[test]
fn mouse_geometry() {
    let area = Rect { x: 2, y: 3, width: 10, height: 6 };
    assert!(click_in_area(2, 3, area));
    assert!(!click_in_area(12, 3, area));
    assert_eq!(calculate_list_item_clicked(3, area, 0, 1), None);
    assert_eq!(calculate_list_item_clicked(4, area, 10, 1), Some(10));
    assert_eq!(calculate_list_item_clicked(7, area, 1, 2), Some(2));
    assert_eq!(calculate_list_item_clicked(8, area, 0, 1), None);
    assert_eq!(calculate_home_option_clicked(6, area, 1), Some(2));
    let ev = MouseEvent { kind: MouseKind::Down(MouseButton::Left), column: 4, row: 9 };
    assert_eq!(process_mouse_event(ev), MouseResult::Click(4, 9));
    let ev = MouseEvent { kind: MouseKind::Moved, column: 0, row: 0 };
    assert_eq!(process_mouse_event(ev), MouseResult::Nothing);
}

#[test]
fn all_files_state_cycles() {
    let mut st = AllFilesState::default();
    st.next(3);
    assert_eq!(st.selected, Some(0));
    st.previous(3);
    assert_eq!(st.selected, Some(2));
    st.next(3);
    assert_eq!(st.selected, Some(0));
    st.next(0);
    assert_eq!(st.selected, Some(0));
    for _ in 0..4 {
        st.cycle_filter();
    }
    assert_eq!(st.filter_mode, FilterMode::All);
    st.cycle_filter();
    assert_eq!(st.filter_mode_name(), "Safe Only");
    st.cycle_sort();
    assert_eq!(st.sort_mode, SortMode::SizeAsc);
    assert_eq!(st.sort_mode_name(), "Size ↑");
    assert_eq!(BrowseSortMode::DateAsc.cycle(), BrowseSortMode::SizeDesc);
    assert_eq!(BrowseSortMode::NameDesc.name(), "Name Z-A");
    assert_eq!(ViewMode::AllFiles.toggled(), ViewMode::Categories);
    assert_eq!(ScanOption::default(), ScanOption::HomeDirectory);
    let h = HomeMenuState::default();
    assert_eq!(h.options.len(), 6);
    assert_eq!(h.selected_option, 1);
}

#[test]
fn all_files_listing_filters_and_sorts() {
    let es = vec![
        file("/s/Zeta.txt", "Zeta.txt", 5),
        file("/s/.cache/alpha", "alpha", 70_000_000),
        file("/s/beta.log", "beta.log", 20),
    ];
    let mut st = AllFilesState::default();
    let marked = vec![2usize];
    assert_eq!(get_filtered_entries_at(&es, &st, &marked, NOW), vec![1, 2, 0]);
    st.sort_mode = SortMode::NameAsc;
    assert_eq!(get_filtered_entries_at(&es, &st, &marked, NOW), vec![1, 2, 0]);
    st.sort_mode = SortMode::NameDesc;
    assert_eq!(get_filtered_entries_at(&es, &st, &marked, NOW), vec![0, 2, 1]);
    st.filter_mode = FilterMode::SafeOnly;
    assert_eq!(get_filtered_entries_at(&es, &st, &marked, NOW), vec![2, 1]);
    st.filter_mode = FilterMode::LargeOnly;
    assert_eq!(get_filtered_entries_at(&es, &st, &marked, NOW), vec![1]);
    st.filter_mode = FilterMode::Selected;
    assert_eq!(get_filtered_entries_at(&es, &st, &marked, NOW), vec![2]);
    st.filter_mode = FilterMode::All;
    st.search_query = "ZET".to_string();
    assert_eq!(get_filtered_entries_at(&es, &st, &marked, NOW), vec![0]);
}

#[test]
fn browser_lists_current_folder() {
    let mut app = scanned_app();
    assert_eq!(app.get_current_entries(), vec![0, 4, 2, 3]);
    assert_eq!(app.calculate_folder_size("/s/sub"), 500);
    assert_eq!(app.get_visible_entries().len(), 5);
    app.toggle_hidden();
    assert_eq!(app.status_message, "Hidden files filtered");
    assert_eq!(app.get_current_entries(), vec![0, 4, 2]);
    assert_eq!(app.get_visible_entries(), vec![0, 1, 2, 4]);
    app.browse_sort_mode = BrowseSortMode::NameAsc;
    assert_eq!(app.get_current_entries(), vec![4, 2, 0]);
}

#[test]
fn entering_and_leaving_folders() {
    let mut app = scanned_app();
    app.enter_folder();
    assert_eq!(app.current_path, "/s/sub");
    assert_eq!(app.navigation_stack, vec!["/s".to_string()]);
    assert_eq!(app.status_message, "📂 /s/sub");
    assert_eq!(app.get_current_entries(), vec![1]);
    app.next_item();
    assert_eq!(app.list_selected, Some(0));
    app.go_back();
    assert_eq!(app.current_path, "/s");
    assert!(app.navigation_stack.is_empty());
    app.go_back();
    assert_eq!(app.current_path, "/s");
}

#[test]
fn marking_and_deleting() {
    let mut app = scanned_app();
    app.list_selected = Some(1);
    app.toggle_mark();
    assert_eq!(app.marked_for_deletion, vec![4]);
    assert_eq!(app.status_message, "Marked · 1 selected");
    app.toggle_mark();
    assert!(app.marked_for_deletion.is_empty());
    assert_eq!(app.status_message, "Unmarked · 0 selected");
    app.list_selected = Some(0);
    app.toggle_mark();
    match app.delete_marked() {
        Some(ps) => assert_eq!(ps, vec!["/s/sub".to_string()]),
        None => panic!("expected paths to measure"),
    }
    app.ask_delete_confirmation(1, 500);
    assert_eq!(app.state, AppState::Confirmation);
    assert_eq!(app.status_message, "Delete 1 items? Free 500 B · Press Y to confirm, N to cancel");
    let ps = app.confirm_deletion();
    assert_eq!(ps, vec!["/s/sub".to_string()]);
    assert_eq!(app.state, AppState::Deleting);
    app.finish_deletion(Ok(vec![true]), StorageInfo::default());
    assert_eq!(app.state, AppState::Viewing);
    assert_eq!(app.status_message, "✓ Deleted 1 items");
    let left: Vec<&str> = app.scan_result.as_ref().unwrap().entries.iter().map(|e| e.path.as_str()).collect();
    assert_eq!(left, vec!["/s/b.txt", "/s/.hidden", "/s/a.log"]);
    assert!(app.marked_for_deletion.is_empty());
    assert_eq!(app.list_selected, Some(0));
}

#[test]
fn system_files_raise_a_warning() {
    let mut app = scanned_app();
    if let Some(r) = app.scan_result.as_mut() {
        r.entries[2].is_system = true;
    }
    app.marked_for_deletion = vec![2, 4];
    assert!(app.delete_marked().is_none());
    assert_eq!(app.state, AppState::SystemWarning);
    assert_eq!(app.pending_system_deletions, vec![2]);
    assert!(app.system_warning_message.starts_with("🛑 SYSTEM FILE WARNING\n\n1 system file(s) selected\n\n/s/b.txt\n\n"));
    let r = app.handle_key_at(Key::Char('y'), None, false, NOW);
    match r {
        UiAction::MeasureDeletion(ps) => assert_eq!(ps, vec!["/s/a.log".to_string()]),
        _ => panic!("expected paths to measure"),
    }
    assert_eq!(app.marked_for_deletion, vec![4]);
    assert!(app.pending_system_deletions.is_empty());
}

#[test]
fn key_dispatch_by_screen() {
    let mut app = App::new("/s".to_string(), StorageInfo::default());
    assert!(matches!(app.handle_key_at(Key::Char('q'), None, false, NOW), UiAction::Quit));
    app.handle_key_at(Key::Char('+'), None, false, NOW);
    assert_eq!(app.home_menu.min_size_mb, 2);
    app.handle_key_at(Key::Char('d'), None, false, NOW);
    assert_eq!(app.home_menu.max_depth, 5);
    assert!(matches!(app.handle_key_at(Key::Enter, Some("/home/me".to_string()), false, NOW), UiAction::StartScan));
    assert_eq!(app.state, AppState::Scanning);
    assert_eq!(app.scan_path, "/home/me");
    app.handle_key_at(Key::Char('q'), None, false, NOW);
    assert_eq!(app.state, AppState::Home);
    app.home_menu.selected_option = 2;
    assert!(matches!(app.handle_key_at(Key::Enter, None, false, NOW), UiAction::RefreshSuggestions));
    assert_eq!(app.state, AppState::PathInput);
    app.handle_key_at(Key::Char('/'), None, false, NOW);
    app.handle_key_at(Key::Char('t'), None, false, NOW);
    app.handle_key_at(Key::Enter, None, true, NOW);
    assert_eq!(app.state, AppState::Home);
    assert_eq!(app.home_menu.custom_path, "/t");
    assert_eq!(app.home_menu.selected_option, 2);
}

#[test]
fn viewing_keys_change_the_browser() {
    let mut app = scanned_app();
    app.handle_key_at(Key::Char('o'), None, false, NOW);
    assert_eq!(app.browse_sort_mode, BrowseSortMode::SizeAsc);
    assert_eq!(app.status_message, "Sort: Size ↑");
    app.handle_key_at(Key::Char('a'), None, false, NOW);
    assert_eq!(app.marked_for_deletion, vec![3, 2, 4, 0]);
    assert_eq!(app.status_message, "4 items marked");
    app.handle_key_at(Key::Char('c'), None, false, NOW);
    assert!(app.marked_for_deletion.is_empty());
    app.handle_key_at(Key::Char('s'), None, false, NOW);
    assert_eq!(app.marked_for_deletion, vec![4]);
    assert_eq!(app.status_message, "✓ 1 safe items · 300 B");
    app.handle_key_at(Key::Char('/'), None, false, NOW);
    assert!(app.browse_search_active);
    app.handle_key_at(Key::Char('B'), None, false, NOW);
    app.handle_key_at(Key::Enter, None, false, NOW);
    assert_eq!(app.status_message, "Found 2 items matching \"B\"");
    app.handle_key_at(Key::Char('F'), None, false, NOW);
    assert_eq!(app.state, AppState::AllFiles);
    app.handle_key_at(Key::Char('j'), None, false, NOW);
    assert_eq!(app.all_files_state.selected, Some(1));
    app.handle_key_at(Key::Esc, None, false, NOW);
    assert_eq!(app.state, AppState::Viewing);
}

#[test]
fn suggestions_for_typed_paths() {
    let mut app = App::new("/".to_string(), StorageInfo::default());
    app.update_path_suggestions(Some("/home/me".to_string()), None);
    assert_eq!(app.home_menu.path_suggestions, vec!["/".to_string(), "/home/me".to_string()]);
    app.path_input = "/ho".chars().collect();
    let listing: Vec<String> = vec!["/home", "/hot", "/etc", "/hoa", "/hob", "/hoc", "/hod"]
        .into_iter()
        .map(String::from)
        .collect();
    app.update_path_suggestions(None, Some(listing));
    assert_eq!(app.home_menu.path_suggestions, vec!["/home", "/hot", "/hoa", "/hob", "/hoc"]);
    assert_eq!(suggestion_base("/home/me/x", false), "/home/me");
    assert_eq!(suggestion_base("/home/me", true), "/home/me");
}

#[test]
fn scan_progress_and_completion() {
    let mut app = App::new("/s".to_string(), StorageInfo::default());
    let mut p = ScanProgress::default();
    p.entries = (0..60).map(|i| file(&format!("/s/f{}", i), &format!("f{}", i), i)).collect();
    p.files_scanned = 60;
    app.take_snapshot_at(&p, NOW);
    assert_eq!(app.last_progress_snapshot.entries_count, 60);
    assert_eq!(app.last_progress_snapshot.top_entries.len(), 50);
    assert_eq!(app.last_progress_snapshot.top_entries[0].0, "f59");
    assert_eq!(app.last_progress_snapshot.top_entries[0].2, "📁 Regular");
    assert!(!app.on_scan_progress_key(Key::Down));
    assert_eq!(app.scan_scroll_offset, 1);
    assert!(app.on_scan_progress_key(Key::Char('q')));
    assert_eq!(app.state, AppState::Home);
    app.finish_scan_at(ScanOutcome::Done(ScanResult { entries: vec![file("/s/.cache/a", "a", 2_000)] }), NOW);
    assert_eq!(app.state, AppState::ScanDetails);
    assert_eq!(app.status_message, "Scan complete · 2 kB potential savings");
    assert_eq!(app.categories.len(), 1);
    app.finish_scan_at(ScanOutcome::Failed("denied".to_string()), NOW);
    assert_eq!(app.status_message, "Scan failed: denied");
    assert_eq!(app.state, AppState::Home);
    assert!(!app.tick());
    assert!(!app.tick());
    assert!(app.tick());
}

#[test]
fn switching_views_twice_restores_the_view() {
    let mut app = scanned_app();
    app.switch_view();
    assert_eq!(app.current_view, ViewMode::Categories);
    assert_eq!(app.status_message, "Categories · Enter to drill down");
    app.switch_view();
    assert_eq!(app.current_view, ViewMode::AllFiles);
    assert_eq!(app.status_message, "File Browser");
}

#[test]
fn sort_orders_cycle_through_six_distinct_labels() {
    let mut m = BrowseSortMode::default();
    let mut labels = Vec::new();
    for _ in 0..6 {
        labels.push(m.name());
        m = m.cycle();
    }
    assert_eq!(m, BrowseSortMode::SizeDesc);
    let mut unique = labels.clone();
    unique.sort();
    unique.dedup();
    assert_eq!(unique.len(), 6);
}

#[test]
fn categories_open_in_label_order() {
    let mut app = scanned_app();
    app.finish_scan_at(
        ScanOutcome::Done(ScanResult {
            entries: vec![file("/s/x.log", "x.log", 10), file("/s/.cache/y", "y", 20)],
        }),
        NOW,
    );
    assert_eq!(app.categories.len(), 2);
    app.current_view = ViewMode::Categories;
    app.category_selected = Some(0);
    app.enter_category_view();
    assert_eq!(app.state, AppState::CategoryView);
    assert_eq!(
        app.status_message,
        "📜 Log Files · Application log files. Can grow large over time."
    );
}

#[test]
fn search_ignores_case_beyond_ascii() {
    let es = vec![file("/s/Ärger.LOG", "Ärger.LOG", 5), file("/s/b", "b", 1)];
    let mut st = AllFilesState::default();
    st.search_query = "ärger.log".to_string();
    assert_eq!(get_filtered_entries_at(&es, &st, &Vec::new(), NOW), vec![0]);
}

#[test]
fn all_files_marks_never_repeat() {
    let mut app = scanned_app();
    app.state = AppState::AllFiles;
    app.all_files_state.selected = Some(0);
    app.handle_key_at(Key::Char(' '), None, false, NOW);
    assert_eq!(app.marked_for_deletion.len(), 1);
    let r = app.handle_key_at(Key::Char('a'), None, false, NOW);
    assert!(matches!(r, UiAction::Nothing));
    let mut seen = app.marked_for_deletion.clone();
    seen.sort();
    seen.dedup();
    assert_eq!(seen.len(), app.marked_for_deletion.len());
    assert_eq!(app.marked_for_deletion.len(), 5);
    app.handle_key_at(Key::Char('a'), None, false, NOW);
    assert_eq!(app.marked_for_deletion.len(), 5);
    assert_eq!(app.state, AppState::AllFiles);
    app.handle_key_at(Key::Char('c'), None, false, NOW);
    assert!(app.marked_for_deletion.is_empty());
}

#[test]
fn next_then_previous_item_returns() {
    let mut app = scanned_app();
    let n = app.get_current_entries().len();
    for k in 0..n {
        app.list_selected = Some(k);
        app.next_item();
        assert_eq!(app.list_selected, Some((k + 1) % n));
        app.previous_item();
        assert_eq!(app.list_selected, Some(k));
    }
}

#[test]
fn marking_all_in_the_browser_keeps_marks_clean() {
    let mut app = scanned_app();
    if let Some(r) = app.scan_result.as_mut() {
        r.entries[2].is_system = true;
    }
    app.marked_for_deletion = vec![4];
    let r = app.handle_key_at(Key::Char('a'), None, false, NOW);
    assert!(matches!(r, UiAction::Nothing));
    let m = app.marked_for_deletion.clone();
    assert_eq!(m[0], 4);
    let mut seen = m.clone();
    seen.sort();
    seen.dedup();
    assert_eq!(seen.len(), m.len());
    assert!(!m.contains(&2));
}
