use disk_cleaner::analyzer::category::FileCategory;
use disk_cleaner::models::{FileEntry, ScanProgress, StorageInfo};
use disk_cleaner::web::actions::{
    apply_deletions, categorize_each_at, estimate_from_entries, plan_deletions, progress_dto,
};
use disk_cleaner::web::results::{
    build_recommendations, build_results, category_breakdown, directory_rollup, largest_files,
    totals,
};
use disk_cleaner::paths::normalize_path;
use disk_cleaner::web::types::{default_min_size, CategoryDto, DirDto};

const NOW: i64 = 1_700_000_000;

fn file(path: &str, name: &str, size: u64) -> FileEntry {
    FileEntry {
        path: path.to_string(),
        size,
        is_dir: false,
        is_hidden: false,
        is_system: false,
        modified: NOW - 100,
        name: name.to_string(),
    }
}

fn dir(path: &str, name: &str) -> FileEntry {
    FileEntry { is_dir: true, size: 0, ..file(path, name, 0) }
}

fn scan() -> Vec<(FileEntry, FileCategory)> {
    categorize_each_at(
        vec![
            dir("/s/proj", "proj"),
            file("/s/proj/node_modules/a.js", "a.js", 400),
            file("/s/.cache/x", "x", 300),
            file("/s/notes.txt", "notes.txt", 50),
            file("/s/proj/readme.md", "readme.md", 10),
        ],
        NOW,
    )
}

#[test]
fn default_minimum_size() {
    assert_eq!(default_min_size(), 1);
}

#[test]
fn totals_count_files_and_dirs() {
    let es = scan();
    assert_eq!(totals(&es), (4, 1, 760, 700));
}

#[test]
fn categories_largest_first() {
    let es = scan();
    let cats = category_breakdown(&es);
    let names: Vec<&str> = cats.iter().map(|c| c.name.as_str()).collect();
    assert_eq!(names, vec!["📦 node_modules", "🗑️ Cache", "📁 Regular"]);
    assert_eq!(cats[0].size, 400);
    assert_eq!(cats[0].count, 1);
    assert!(cats[0].safe);
    assert_eq!(cats[2].count, 3);
    assert_eq!(cats[2].size, 60);
    assert!(!cats[2].safe);
}

#[test]
fn directories_roll_up_under_root() {
    let es = scan();
    let dirs = directory_rollup("/s", &es);
    assert_eq!(dirs.len(), 3);
    assert_eq!((dirs[0].name.as_str(), dirs[0].path.as_str(), dirs[0].size), ("proj", "/s/proj", 410));
    assert_eq!((dirs[1].name.as_str(), dirs[1].size), (".cache", 300));
    assert_eq!((dirs[2].name.as_str(), dirs[2].size), ("notes.txt", 50));
}

#[test]
fn files_largest_first_without_directories() {
    let es = scan();
    let files = largest_files(&es);
    let names: Vec<&str> = files.iter().map(|f| f.name.as_str()).collect();
    assert_eq!(names, vec!["a.js", "x", "notes.txt", "readme.md"]);
    assert_eq!(files[0].category, "📦 node_modules");
    assert_eq!(files[0].color, "LightMagenta");
    assert_eq!(files[0].modified.len(), 16);
}

#[test]
fn web_recommendations_in_order() {
    let cats = vec![
        CategoryDto {
            name: "🗑️ Cache".to_string(),
            color: "Yellow".to_string(),
            description: String::new(),
            size: 2_000,
            count: 3,
            safe: true,
        },
        CategoryDto {
            name: "⚙️ System Files".to_string(),
            color: "Red".to_string(),
            description: String::new(),
            size: 10,
            count: 2,
            safe: false,
        },
    ];
    let dirs = vec![DirDto { name: "big".to_string(), path: "/s/big".to_string(), size: 1_500_000 }];
    let recs = build_recommendations(&cats, &dirs);
    assert_eq!(
        recs,
        vec![
            "📂 Largest directory: big (1.50 MB)".to_string(),
            "🛑 2 system files found — DO NOT DELETE".to_string(),
            "🗑️ Cache files using 2 kB — safe to delete".to_string(),
        ]
    );
    let none = build_recommendations(&Vec::new(), &Vec::new());
    assert_eq!(none, vec!["✨ Nothing obvious to clean up here.".to_string()]);
}

#[test]
fn results_page_totals_and_storage() {
    let es = scan();
    let storage = StorageInfo::from_block_counts(4096, 100, 25);
    let r = build_results("/s", &es, storage);
    assert_eq!(r.scan_path, "/s");
    assert_eq!((r.total_files, r.total_dirs, r.total_size, r.safe_savings), (4, 1, 760, 700));
    assert_eq!((r.storage.total, r.storage.used, r.storage.available), (409_600, 307_200, 102_400));
    assert_eq!(r.categories.len(), 3);
    assert_eq!(r.files.len(), 4);
    assert_eq!(r.recommendations[0], "📂 Largest directory: proj (410 B)");
}

#[test]
fn storage_never_negative() {
    let s = StorageInfo::from_block_counts(10, 5, 9);
    assert_eq!((s.total_space, s.available_space, s.used_space), (50, 90, 0));
}

#[test]
fn delete_plan_refuses_outside_root() {
    let es = scan();
    let asked = vec!["/s/proj".to_string(), "/etc/passwd".to_string()];
    let plan = plan_deletions("/s", &es, &asked);
    assert_eq!(plan.len(), 2);
    assert!(plan[0].allowed);
    assert_eq!(plan[0].size, 410);
    assert!(!plan[1].allowed);
    assert_eq!(plan[1].size, 0);
    assert_eq!(estimate_from_entries(&es, "/s/.cache"), 300);
}

#[test]
fn delete_plan_refuses_paths_that_climb_out() {
    let es = scan();
    let asked = vec![
        "/s/../etc".to_string(),
        "/s/proj/../../etc/passwd".to_string(),
        "/s/..".to_string(),
        "/s/..hidden".to_string(),
        "/s/./proj".to_string(),
        "/s/a/../proj".to_string(),
        "/x/../s/proj".to_string(),
    ];
    let plan = plan_deletions("/s", &es, &asked);
    assert!(!plan[0].allowed);
    assert!(!plan[1].allowed);
    assert!(!plan[2].allowed);
    assert_eq!(plan[2].size, 0);
    assert!(plan[3].allowed);
    assert!(plan[4].allowed);
    assert!(plan[5].allowed);
    assert!(plan[6].allowed);
    assert_eq!(normalize_path("/s/a/../b"), "/s/b");
    assert_eq!(normalize_path("/s/.."), "/");
    assert_eq!(normalize_path("/.."), "/");
    assert_eq!(normalize_path("a/./b//c/"), "a/b/c");
    assert_eq!(normalize_path("../a/../../b"), "../../b");
    assert_eq!(normalize_path(""), "");
}

#[test]
fn applying_deletions_drops_entries_under_deleted_paths() {
    let mut es = scan();
    let asked = vec!["/s/proj".to_string(), "/etc/passwd".to_string(), "/s/notes.txt".to_string()];
    let plan = plan_deletions("/s", &es, &asked);
    let done = vec![true, true, false];
    let r = apply_deletions(&mut es, &plan, &done);
    assert_eq!(r.freed, 410);
    assert_eq!(r.deleted, 1);
    assert!(r.results[0].success);
    assert!(!r.results[1].success);
    assert!(!r.results[2].success);
    let left: Vec<&str> = es.iter().map(|(e, _)| e.path.as_str()).collect();
    assert_eq!(left, vec!["/s/.cache/x", "/s/notes.txt"]);
}

#[test]
fn progress_groups_largest_first() {
    let mut p = ScanProgress::default();
    p.files_scanned = 3;
    p.dirs_scanned = 1;
    p.total_size_scanned = 90;
    p.current_path = "/s/a".to_string();
    p.category_sizes = vec![("Cache".to_string(), 10), ("Media".to_string(), 70), ("Other".to_string(), 10)];
    let d = progress_dto(&p);
    assert_eq!((d.files, d.dirs, d.size, d.complete), (3, 1, 90, false));
    assert_eq!(d.current_path, "/s/a");
    let names: Vec<&str> = d.categories.iter().map(|c| c.name.as_str()).collect();
    assert_eq!(names, vec!["Media", "Cache", "Other"]);
}

#[test]
fn breakdown_accounts_for_every_entry() {
    let es = scan();
    let cats = category_breakdown(&es);
    assert_eq!(cats.iter().map(|c| c.count).sum::<usize>(), es.len());
    assert_eq!(
        cats.iter().map(|c| c.size).sum::<u64>(),
        es.iter().map(|(e, _)| e.size).sum::<u64>()
    );
}
