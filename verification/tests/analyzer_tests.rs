use disk_cleaner::analyzer::analysis::Analyzer;
use disk_cleaner::analyzer::category::{all_categories, FileCategory};
use disk_cleaner::analyzer::rules::ClassificationRules;
use disk_cleaner::models::FileEntry;

const NOW: i64 = 1_700_000_000;

fn entry(path: &str, name: &str, size: u64) -> FileEntry {
    FileEntry {
        path: path.to_string(),
        size,
        is_dir: false,
        is_hidden: name.starts_with('.'),
        is_system: false,
        modified: NOW - 100,
        name: name.to_string(),
    }
}

fn category_of(e: &FileEntry) -> FileCategory {
    ClassificationRules::classify_at(e, &[], NOW)
}

#[test]
fn patterns_pick_categories() {
    assert_eq!(category_of(&entry("/home/u/app/node_modules/x.js", "x.js", 10)), FileCategory::NodeModules);
    assert_eq!(category_of(&entry("/home/u/.cache/thumb.png", "thumb.png", 10)), FileCategory::Cache);
    assert_eq!(category_of(&entry("/Users/u/Library/Caches/a.db", "a.db", 10)), FileCategory::Cache);
    assert_eq!(category_of(&entry("/Users/u/Library/Logs/a.txt", "a.txt", 10)), FileCategory::LogFiles);
    assert_eq!(category_of(&entry("/Users/u/Library/Prefs/a.plist", "a.plist", 10)), FileCategory::LibraryFiles);
    assert_eq!(category_of(&entry("/home/u/Downloads/setup.bin", "setup.bin", 10)), FileCategory::Downloads);
    assert_eq!(category_of(&entry("/home/u/Documents/cv.pdf", "cv.pdf", 10)), FileCategory::Documents);
    assert_eq!(category_of(&entry("/home/u/proj/target/debug/app", "app", 10)), FileCategory::BuildArtifacts);
    assert_eq!(category_of(&entry("/home/u/.cargo/registry/x.crate", "x.crate", 10)), FileCategory::PackageCache);
    assert_eq!(category_of(&entry("/home/u/work/notes.swp", "notes.swp", 10)), FileCategory::TempFiles);
    assert_eq!(category_of(&entry("/home/u/work/server.log", "server.log", 10)), FileCategory::LogFiles);
    assert_eq!(category_of(&entry("/home/u/work/backup.zip", "backup.zip", 10)), FileCategory::Archives);
    assert_eq!(category_of(&entry("/home/u/work/movie.MP4", "movie.MP4", 10)), FileCategory::Media);
    assert_eq!(category_of(&entry("/home/u/work/.profile", ".profile", 10)), FileCategory::HiddenFiles);
    assert_eq!(category_of(&entry("/home/u/work/disk.img", "disk.img", 200 * 1024 * 1024)), FileCategory::LargeFiles);
    assert_eq!(category_of(&entry("/home/u/work/plain.txt", "plain.txt", 10)), FileCategory::Regular);
}

#[test]
fn old_files_by_age() {
    let mut e = entry("/home/u/work/plain.txt", "plain.txt", 10);
    e.modified = NOW - 31_622_400;
    assert_eq!(category_of(&e), FileCategory::OldFiles);
    e.modified = NOW - 31_622_399;
    assert_eq!(category_of(&e), FileCategory::Regular);
}

#[test]
fn system_entries_and_namesakes() {
    let mut sys = entry("/usr/lib/libc.so", "libc.so", 10);
    sys.is_system = true;
    let a = entry("/home/u/a/report.txt", "report.txt", 10);
    let b = entry("/home/u/b/report.txt", "report.txt", 10);
    let all = vec![sys.clone(), a.clone(), b.clone()];
    assert_eq!(ClassificationRules::classify_at(&sys, &all, NOW), FileCategory::SystemFiles);
    assert_eq!(ClassificationRules::classify_at(&a, &all, NOW), FileCategory::DuplicateName);
    assert_eq!(ClassificationRules::classify_at(&b, &all, NOW), FileCategory::DuplicateName);
    assert!(ClassificationRules::has_namesake(&a, &all));
    assert!(!ClassificationRules::has_namesake(&sys, &all));
    assert!(!FileCategory::SystemFiles.is_safe_to_delete());
}

#[test]
fn category_labels_and_order() {
    let all = all_categories();
    assert_eq!(all.len(), 17);
    assert_eq!(all[0], FileCategory::Cache);
    assert_eq!(all[16], FileCategory::Regular);
    assert_eq!(FileCategory::Cache.as_str(), "🗑️ Cache");
    assert_eq!(FileCategory::NodeModules.index(), 7);
    assert_eq!(FileCategory::Media.color(), "LightGreen");
    assert!(FileCategory::Downloads.is_safe_to_delete());
    assert!(!FileCategory::Documents.is_safe_to_delete());
    assert_eq!(FileCategory::Regular.description(), "Regular files.");
}

#[test]
fn grouping_and_savings() {
    let es = vec![
        entry("/home/u/.cache/a", "a", 100),
        entry("/home/u/work/plain.txt", "plain.txt", 7),
        entry("/home/u/.cache/b", "b", 50),
        entry("/home/u/work/run.log", "run.log", 20),
    ];
    let groups = Analyzer::group_by_category_at(&es, NOW);
    assert_eq!(groups.len(), 3);
    assert_eq!(groups[0].category, FileCategory::Cache);
    assert_eq!(groups[0].entries.len(), 2);
    assert_eq!(groups[0].entries[1].name, "b");
    assert_eq!(groups[1].category, FileCategory::LogFiles);
    assert_eq!(groups[2].category, FileCategory::Regular);
    let total: usize = groups.iter().map(|g| g.entries.len()).sum();
    assert_eq!(total, es.len());
    assert_eq!(Analyzer::calculate_safe_savings_at(&es, NOW), 170);
}

#[test]
fn categorize_all_pairs_each_entry() {
    let es = vec![entry("/home/u/a/x.txt", "x.txt", 1), entry("/home/u/b/x.txt", "x.txt", 2)];
    let pairs = Analyzer::categorize_all_at(es, NOW);
    assert_eq!(pairs.len(), 2);
    assert_eq!(pairs[0].1, FileCategory::DuplicateName);
    assert_eq!(pairs[1].0.size, 2);
}

#[test]
fn large_directories_largest_first() {
    let es = vec![
        entry("/data/small/a", "a", 5),
        entry("/data/big/b", "b", 50),
        entry("/data/big/c", "c", 60),
        entry("/data/mid/d", "d", 30),
    ];
    let dirs = Analyzer::find_large_directories(&es);
    assert_eq!(dirs.len(), 3);
    assert_eq!(dirs[0], ("/data/big".to_string(), 110));
    assert_eq!(dirs[1], ("/data/mid".to_string(), 30));
    assert_eq!(dirs[2], ("/data/small".to_string(), 5));
}

#[test]
fn recommendations_name_largest_and_caches() {
    let es = vec![
        entry("/data/.cache/a", "a", 2_000),
        entry("/data/app/node_modules/b", "b", 1_500_000),
    ];
    let recs = Analyzer::get_recommendations_at(&es, NOW);
    assert_eq!(
        recs,
        vec![
            "📂 Largest directory: /data/app/node_modules (1.50 MB)".to_string(),
            "📦 1 node_modules entries using 1.50 MB - safe to delete".to_string(),
            "🗑️ Cache files using 2 kB - safe to delete".to_string(),
        ]
    );
}

#[test]
fn recommendations_for_system_and_hidden() {
    let mut sys = entry("/usr/bin/ls", "ls", 500);
    sys.is_system = true;
    let hidden = entry("/home/u/.secrets", ".secrets", 300);
    let recs = Analyzer::get_recommendations_at(&[sys, hidden], NOW);
    assert_eq!(recs.len(), 3);
    assert_eq!(recs[1], "🛑 1 system files found - DO NOT DELETE");
    assert_eq!(recs[2], "👁️ 1 hidden files using 300 B - review carefully");
}

#[test]
fn categories_have_distinct_labels() {
    let cs = all_categories();
    for (i, a) in cs.iter().enumerate() {
        for (j, b) in cs.iter().enumerate() {
            if i != j {
                assert_ne!(a.as_str(), b.as_str());
            }
        }
    }
    assert_eq!(FileCategory::Regular.as_str(), "📁 Regular");
    assert_eq!(FileCategory::NodeModules.as_str(), "📦 node_modules");
}

#[test]
fn alone_a_file_is_never_a_duplicate() {
    let a = entry("/home/u/a/report.txt", "report.txt", 10);
    let mut sys = entry("/usr/lib/libc.so", "libc.so", 10);
    sys.is_system = true;
    assert_eq!(Analyzer::categorize_file_at(&a, NOW), Analyzer::categorize_file_with_context_at(&a, &[], NOW));
    assert_eq!(Analyzer::categorize_file_at(&a, NOW), ClassificationRules::classify_at(&a, &[], NOW));
    assert_ne!(Analyzer::categorize_file_at(&a, NOW), FileCategory::DuplicateName);
    assert_eq!(Analyzer::categorize_file_at(&sys, NOW), FileCategory::SystemFiles);
    let b = entry("/home/u/b/report.txt", "report.txt", 10);
    let all = vec![a.clone(), b];
    assert_eq!(Analyzer::categorize_file_with_context_at(&a, &all, NOW), FileCategory::DuplicateName);
}
