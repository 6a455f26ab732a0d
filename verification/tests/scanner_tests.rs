use disk_cleaner::models::FileEntry;
use disk_cleaner::scanner::dir_calculator::DirectorySizeCalculator;
use disk_cleaner::scanner::classify::categorize_path;
use disk_cleaner::scanner::skip::{should_skip_path, is_different_filesystem};
use disk_cleaner::scanner::utils::{is_hidden_path, is_system_path, get_system_warning};
use disk_cleaner::scanner::walk::{ScanWalk, RawEntry, DirectoryVerdict};
use disk_cleaner::scanner::scanner::{largest_first, first_files, first_entries};
use disk_cleaner::scanner::Scanner;

fn dir_entry(path: &str, name: &str) -> FileEntry {
    FileEntry {
        path: path.to_string(),
        size: 0,
        is_dir: true,
        is_hidden: false,
        is_system: false,
        modified: chrono::Local::now().timestamp(),
        name: name.to_string(),
    }
}

fn file_entry(path: &str, name: &str, size: u64) -> FileEntry {
    FileEntry {
        path: path.to_string(),
        size,
        is_dir: false,
        is_hidden: false,
        is_system: false,
        modified: 0,
        name: name.to_string(),
    }
}

#[test]
fn test_record_and_calculate() {
    let mut calc = DirectorySizeCalculator::new();

    let parent = "/test".to_string();
    let child = "/test/child".to_string();

    calc.record_directory_size(parent.clone(), 100);
    calc.record_directory_size(child.clone(), 50);

    let mut entries = vec![dir_entry(&parent, "test"), dir_entry(&child, "child")];

    calc.calculate_recursive_sizes(&mut entries);

    // Parent should have sum of its direct children
    assert!(entries[0].size >= 50);
}

#[test]
fn recursive_sizes_exact_values() {
    let mut calc = DirectorySizeCalculator::new();
    calc.record_directory_size("/a".to_string(), 10);
    calc.record_directory_size("/a/b".to_string(), 20);
    calc.record_directory_size("/a/c".to_string(), 30);
    calc.record_directory_size("/a/b".to_string(), 5);
    let mut entries = vec![dir_entry("/a", "a"), dir_entry("/a/b", "b"), file_entry("/a/x", "x", 7)];
    calc.calculate_recursive_sizes(&mut entries);
    assert_eq!(entries[0].size, 55);
    assert_eq!(entries[1].size, 0);
    assert_eq!(entries[2].size, 7);
}

#[test]
fn hidden_paths() {
    assert!(is_hidden_path("/home/u/.bashrc"));
    assert!(!is_hidden_path("/home/u/notes.txt"));
    assert!(!is_hidden_path("/"));
    assert!(Scanner::is_hidden("/x/.git"));
}

#[test]
fn system_paths() {
    assert!(is_system_path("/usr/bin/ls"));
    assert!(is_system_path("/Users/a/.ssh/id_rsa"));
    assert!(is_system_path("/home/u/.zshrc"));
    assert!(!is_system_path("/home/u/file.txt"));
    assert!(disk_cleaner::scanner::classify::is_system_path("/System/Library"));
    assert!(!disk_cleaner::scanner::classify::is_system_path("/home/u/.zshrc"));
}

#[test]
fn system_warnings() {
    assert_eq!(get_system_warning("/Users/a/Library/Keychains/login"), Some("⚠️ Contains encryption keys!".to_string()));
    assert_eq!(get_system_warning("/home/u/.ssh/id"), Some("⚠️ SSH keys!".to_string()));
    assert_eq!(get_system_warning("/home/u/.gnupg/x"), Some("⚠️ GPG keys!".to_string()));
    assert_eq!(get_system_warning("/System/x"), Some("🛑 SYSTEM FILES!".to_string()));
    assert_eq!(get_system_warning("/home/u/x"), None);
    assert_eq!(disk_cleaner::scanner::get_system_warning("/home/u/.ssh"), Some("⚠️ SSH keys!".to_string()));
}

#[test]
fn live_groups() {
    assert_eq!(categorize_path("/Users/a/Library/Caches/x.bin", false, false), "Cache");
    assert_eq!(categorize_path("/tmp/x/tmpfile", false, false), "Temp Files");
    assert_eq!(categorize_path("/p/node_modules/x.js", false, false), "node_modules");
    assert_eq!(categorize_path("/p/target/debug/app", false, false), "Build Artifacts");
    assert_eq!(categorize_path("/h/.cargo/registry/x", false, false), "Package Cache");
    assert_eq!(categorize_path("/h/Library/App/x", false, false), "Library Files");
    assert_eq!(categorize_path("/h/Downloads/a.bin", false, false), "Downloads");
    assert_eq!(categorize_path("/h/x/server.LOG", false, false), "Log Files");
    assert_eq!(categorize_path("/h/x/movie.MKV", false, false), "Media");
    assert_eq!(categorize_path("/h/x/a.gz", false, false), "Archives");
    assert_eq!(categorize_path("/h/x/a.pdf", false, false), "Documents");
    assert_eq!(categorize_path("/h/x/a.o", false, false), "Build Artifacts");
    assert_eq!(categorize_path("/h/x/a.bin", false, true), "System Files");
    assert_eq!(categorize_path("/h/x/a.bin", true, false), "Hidden Files");
    assert_eq!(categorize_path("/h/x/a.bin", false, false), "Regular");
}

#[test]
fn skipping() {
    assert!(should_skip_path("/dev", false));
    assert!(should_skip_path("/proc/1/fd", false));
    assert!(!should_skip_path("/device", false));
    assert!(!should_skip_path("/Volumes/X", false));
    assert!(should_skip_path("/Volumes/X", true));
    assert!(should_skip_path("/System/Volumes/Data", true));
    assert!(!should_skip_path("/home/u", true));
    assert!(is_different_filesystem(Some(2), Some(1)));
    assert!(!is_different_filesystem(Some(1), Some(1)));
    assert!(!is_different_filesystem(None, Some(1)));
    assert!(!is_different_filesystem(Some(2), None));
}

#[test]
fn scanner_settings() {
    let s = Scanner::new(2, 7);
    assert_eq!(s.min_size_bytes(), 2 * 1024 * 1024);
    assert_eq!(s.max_depth(), 7);
    assert!(Scanner::is_full_disk_scan("/"));
    assert!(Scanner::is_full_disk_scan("/Users/bob"));
    assert!(!Scanner::is_full_disk_scan("/home/bob"));
}

fn raw(path: &str, name: &str, is_dir: bool, len: u64, inode: u64, links: u64) -> RawEntry {
    RawEntry {
        path: path.to_string(),
        name: name.to_string(),
        is_dir,
        is_symlink: false,
        len,
        inode,
        links,
        modified: 100,
        device: Some(1),
    }
}

#[test]
fn walk_counts_hard_links_once() {
    let mut w = ScanWalk::new("/r".to_string(), 10, false, Some(1));
    assert_eq!(w.next_directory(), Some("/r".to_string()));
    assert_eq!(w.next_directory(), None);
    assert_eq!(w.enter_directory("/r", Some(1)), DirectoryVerdict::Read { publish_path: false });
    w.record_entry(raw("/r/a.log", "a.log", false, 100, 7, 2));
    w.record_entry(raw("/r/b.log", "b.log", false, 100, 7, 2));
    w.record_entry(raw("/r/small", "small", false, 3, 8, 1));
    w.record_entry(raw("/r/sub", "sub", true, 0, 9, 1));
    w.record_entry(raw("/r/dev", "dev", true, 0, 10, 1));
    let mut link = raw("/r/link", "link", false, 999, 11, 1);
    link.is_symlink = true;
    w.record_entry(link);
    assert_eq!(w.files_count, 2);
    assert_eq!(w.dirs_count, 2);
    assert_eq!(w.total_size, 103);
    assert_eq!(w.hardlink_deduped, 1);
    assert_eq!(w.entries.len(), 3);
    assert_eq!(w.entries[0].path, "/r/a.log");
    assert_eq!(w.entries[1].path, "/r/sub");
    assert_eq!(w.next_directory(), Some("/r/sub".to_string()));
    assert_eq!(w.next_directory(), Some("/r/dev".to_string()));
    let total: u64 = w.category_sizes.iter().map(|g| g.1).sum();
    assert_eq!(total, 103);
    assert!(w.category_sizes.iter().any(|g| g.0 == "Log Files" && g.1 == 100));
}

#[test]
fn walk_skips_virtual_and_foreign_directories() {
    let mut w = ScanWalk::new("/".to_string(), 0, true, Some(1));
    assert_eq!(w.enter_directory("/proc", Some(1)), DirectoryVerdict::Skip);
    assert_eq!(w.skipped_virtual, 1);
    assert_eq!(w.enter_directory("/mnt/usb", Some(2)), DirectoryVerdict::Skip);
    assert_eq!(w.skipped_different_fs, 1);
    let mut d = raw("/mnt/other", "other", true, 0, 1, 1);
    d.device = Some(5);
    w.record_entry(d);
    assert_eq!(w.skipped_different_fs, 2);
    assert_eq!(w.queue.len(), 1);
    w.directory_unreadable();
    assert_eq!(w.skipped_permission, 1);
    for _ in 0..49 {
        assert!(matches!(w.enter_directory("/home", Some(1)), DirectoryVerdict::Read { publish_path: false }));
    }
    assert_eq!(w.enter_directory("/home", Some(1)), DirectoryVerdict::Read { publish_path: true });
}

#[test]
fn ordering_results() {
    let es = vec![file_entry("/a", "a", 5), dir_entry("/d", "d"), file_entry("/b", "b", 9), file_entry("/c", "c", 5)];
    let sorted = largest_first(&es);
    let names: Vec<&str> = sorted.iter().map(|e| e.name.as_str()).collect();
    assert_eq!(names, vec!["b", "a", "c", "d"]);
    let files = first_files(&es, 2);
    assert_eq!(files.len(), 2);
    assert_eq!(files[0].name, "a");
    assert_eq!(files[1].name, "b");
    assert_eq!(first_entries(&es, 3).len(), 3);
    assert_eq!(first_entries(&es, 30).len(), 4);
    let mut w = ScanWalk::new("/".to_string(), 0, false, None);
    w.entries = es;
    let r = Scanner::finish(&w);
    assert_eq!(r.entries[0].name, "b");
}

#[test]
fn recording_twice_adds_the_sizes() {
    let mut twice = DirectorySizeCalculator::new();
    twice.record_directory_size("/t".to_string(), 1);
    twice.record_directory_size("/t/c".to_string(), 30);
    twice.record_directory_size("/t/c".to_string(), 20);
    let mut once = DirectorySizeCalculator::new();
    once.record_directory_size("/t".to_string(), 1);
    once.record_directory_size("/t/c".to_string(), 50);
    let mut a = vec![dir_entry("/t", "t"), dir_entry("/t/c", "c")];
    let mut b = vec![dir_entry("/t", "t"), dir_entry("/t/c", "c")];
    twice.calculate_recursive_sizes(&mut a);
    once.calculate_recursive_sizes(&mut b);
    assert_eq!(a[0].size, 50);
    assert_eq!(b[0].size, 50);
}

#[test]
fn recording_a_file_leaves_the_skip_counters() {
    let mut w = ScanWalk::new("/".to_string(), 0, true, Some(1));
    w.enter_directory("/proc", Some(1));
    w.enter_directory("/mnt/usb", Some(2));
    w.directory_unreadable();
    w.record_entry(raw("/home/a.txt", "a.txt", false, 10, 1, 1));
    w.record_entry(raw("/home/b.txt", "b.txt", false, 10, 2, 2));
    w.record_entry(raw("/home/c.txt", "c.txt", false, 10, 2, 2));
    assert_eq!(w.skipped_virtual, 1);
    assert_eq!(w.skipped_different_fs, 1);
    assert_eq!(w.skipped_permission, 1);
    assert_eq!(w.update_counter, 0);
    assert_eq!(w.hardlink_deduped, 1);
    assert_eq!(w.files_count, 2);
}
