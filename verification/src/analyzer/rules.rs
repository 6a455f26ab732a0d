//! Path and name patterns that decide a file's category.
use vstd::prelude::*;
use crate::analyzer::category::FileCategory;
use crate::models::FileEntry;
use crate::text::{seq_contains, seq_starts_with, seq_ends_with, lowercase, to_lowercase, str_contains, str_starts_with, str_ends_with, str_eq};
use crate::paths::{path_eq, same_path};
use crate::clock::unix_now;

verus! {

/// Files larger than this many bytes are "large".
pub const LARGE_FILE_BYTES: u64 = 104857600;

/// Files modified at least this many seconds ago are "old": more than 365
/// whole days.
pub const OLD_FILE_SECS: i64 = 31622400;

/// Build outputs: compiled code and bundler output.
pub open spec fn spec_is_build_artifact(p: Seq<char>, n: Seq<char>) -> bool {
    ||| seq_contains(p, "target/debug"@)
    ||| seq_contains(p, "target/release"@)
    ||| seq_contains(p, "/build/"@)
    ||| seq_contains(p, "/dist/"@)
    ||| seq_contains(p, ".next/"@)
    ||| seq_contains(p, "__pycache__"@)
    ||| seq_contains(p, ".pyc"@)
    ||| n == "target"@
    ||| n == "build"@
    ||| n == "dist"@
}

/// Caches of package managers.
pub open spec fn spec_is_package_cache(p: Seq<char>) -> bool {
    ||| seq_contains(p, ".cargo/registry"@)
    ||| seq_contains(p, ".npm"@)
    ||| seq_contains(p, ".yarn/cache"@)
    ||| seq_contains(p, "pip/cache"@)
    ||| seq_contains(p, ".gradle/caches"@)
    ||| seq_contains(p, ".m2/repository"@)
    ||| seq_contains(p, "cocoapods/repos"@)
    ||| seq_contains(p, ".pub-cache"@)
}

/// Temporary files.
pub open spec fn spec_is_temp_file(p: Seq<char>, n: Seq<char>) -> bool {
    ||| seq_contains(p, "/tmp/"@)
    ||| seq_contains(p, "/temp/"@)
    ||| seq_starts_with(n, "tmp"@)
    ||| seq_starts_with(n, "temp"@)
    ||| seq_ends_with(n, ".tmp"@)
    ||| seq_ends_with(n, ".temp"@)
    ||| seq_ends_with(n, ".swp"@)
    ||| seq_ends_with(n, "~"@)
}

/// Log files.
pub open spec fn spec_is_log_file(p: Seq<char>, n: Seq<char>) -> bool {
    ||| seq_ends_with(n, ".log"@)
    ||| seq_contains(p, "/logs/"@)
    ||| seq_ends_with(n, ".log.gz"@)
    ||| seq_ends_with(n, ".log.1"@)
    ||| seq_ends_with(n, ".log.old"@)
}

/// Compressed archives and disk images.
pub open spec fn spec_is_archive(n: Seq<char>) -> bool {
    ||| seq_ends_with(n, ".zip"@)
    ||| seq_ends_with(n, ".tar"@)
    ||| seq_ends_with(n, ".tar.gz"@)
    ||| seq_ends_with(n, ".tgz"@)
    ||| seq_ends_with(n, ".rar"@)
    ||| seq_ends_with(n, ".7z"@)
    ||| seq_ends_with(n, ".dmg"@)
    ||| seq_ends_with(n, ".iso"@)
}

/// Video, audio and image files.
pub open spec fn spec_is_media_file(n: Seq<char>) -> bool {
    ||| seq_ends_with(n, ".mp4"@)
    ||| seq_ends_with(n, ".mov"@)
    ||| seq_ends_with(n, ".avi"@)
    ||| seq_ends_with(n, ".mkv"@)
    ||| seq_ends_with(n, ".mp3"@)
    ||| seq_ends_with(n, ".wav"@)
    ||| seq_ends_with(n, ".flac"@)
    ||| seq_ends_with(n, ".jpg"@)
    ||| seq_ends_with(n, ".jpeg"@)
    ||| seq_ends_with(n, ".png"@)
    ||| seq_ends_with(n, ".gif"@)
    ||| seq_ends_with(n, ".heic"@)
    ||| seq_ends_with(n, ".raw"@)
}

/// The category that the path and name patterns give, from the lowercase
/// path `p` and lowercase name `n`, the first matching rule winning.
pub open spec fn pattern_category(
    p: Seq<char>,
    n: Seq<char>,
    is_hidden: bool,
    size: u64,
    modified: i64,
    now: i64,
) -> FileCategory {
    if seq_contains(p, "/library/"@) {
        if seq_contains(p, "/library/caches"@) {
            FileCategory::Cache
        } else if seq_contains(p, "/library/logs"@) {
            FileCategory::LogFiles
        } else {
            FileCategory::LibraryFiles
        }
    } else if seq_contains(p, "/downloads/"@) {
        FileCategory::Downloads
    } else if seq_contains(p, "/documents/"@) {
        FileCategory::Documents
    } else if seq_contains(p, "node_modules"@) {
        FileCategory::NodeModules
    } else if seq_contains(p, "cache"@) || seq_contains(p, ".cache"@) {
        FileCategory::Cache
    } else if spec_is_build_artifact(p, n) {
        FileCategory::BuildArtifacts
    } else if spec_is_package_cache(p) {
        FileCategory::PackageCache
    } else if spec_is_temp_file(p, n) {
        FileCategory::TempFiles
    } else if spec_is_log_file(p, n) {
        FileCategory::LogFiles
    } else if spec_is_archive(n) {
        FileCategory::Archives
    } else if spec_is_media_file(n) {
        FileCategory::Media
    } else if is_hidden {
        FileCategory::HiddenFiles
    } else if size > LARGE_FILE_BYTES {
        FileCategory::LargeFiles
    } else if now - modified >= OLD_FILE_SECS {
        FileCategory::OldFiles
    } else {
        FileCategory::Regular
    }
}

/// The category that the patterns give for `e` at time `now`.
pub open spec fn entry_pattern_category(e: FileEntry, now: i64) -> FileCategory {
    pattern_category(lowercase(e.path@), lowercase(e.name@), e.is_hidden, e.size, e.modified, now)
}

/// Another file (not a directory) in `all` has the same name as `e` at a
/// different path.
pub open spec fn has_namesake(e: FileEntry, all: Seq<FileEntry>) -> bool {
    exists|j: int|
        0 <= j < all.len() && (#[trigger] all[j]).name@ == e.name@ && !path_eq(all[j].path@, e.path@)
            && !all[j].is_dir
}

/// The category of `e` among the entries `all` at time `now`: system files
/// first, then files whose name recurs elsewhere, then the patterns.
pub open spec fn category_in(e: FileEntry, all: Seq<FileEntry>, now: i64) -> FileCategory {
    if e.is_system {
        FileCategory::SystemFiles
    } else if !e.is_dir && has_namesake(e, all) {
        FileCategory::DuplicateName
    } else {
        entry_pattern_category(e, now)
    }
}

/// The rules that decide a file's category.
pub struct ClassificationRules;

impl ClassificationRules {
    /// The category of `entry` among `all_entries`, judged now.  The result is
    /// what the rules give at the time the clock was read.
    pub fn classify(entry: &FileEntry, all_entries: &[FileEntry]) -> (c: FileCategory)
        ensures
            exists|now: i64| c == category_in(*entry, all_entries@, now),
    {
        let now = unix_now();
        Self::classify_at(entry, all_entries, now)
    }

    /// The category of `entry` among `all_entries` at time `now`.
    pub fn classify_at(entry: &FileEntry, all_entries: &[FileEntry], now: i64) -> (c: FileCategory)
        ensures
            c == category_in(*entry, all_entries@, now),
    {
        if entry.is_system {
            return FileCategory::SystemFiles;
        }
        if all_entries.len() > 0 {
            let namesake = Self::has_namesake(entry, all_entries);
            if namesake && !entry.is_dir {
                return FileCategory::DuplicateName;
            }
        }
        Self::classify_by_pattern(entry, now)
    }

    /// Whether another file in `all_entries` has the same name as `entry` at
    /// a different path.
    pub fn has_namesake(entry: &FileEntry, all_entries: &[FileEntry]) -> (b: bool)
        ensures
            b == has_namesake(*entry, all_entries@),
    {
        let mut i: usize = 0;
        while i < all_entries.len()
            invariant
                i <= all_entries@.len(),
                forall|j: int|
                    0 <= j < i ==> !((#[trigger] all_entries@[j]).name@ == entry.name@ && !path_eq(
                        all_entries@[j].path@,
                        entry.path@,
                    ) && !all_entries@[j].is_dir),
            decreases all_entries@.len() - i,
        {
            let e = &all_entries[i];
            if !e.is_dir && e.name == entry.name && !same_path(&e.path, &entry.path) {
                return true;
            }
            i = i + 1;
        }
        false
    }

    /// The category that the path and name patterns give for `entry` at time
    /// `now`.
    pub fn classify_by_pattern(entry: &FileEntry, now: i64) -> (c: FileCategory)
        ensures
            c == entry_pattern_category(*entry, now),
    {
        let path_lower = to_lowercase(&entry.path);
        let name_lower = to_lowercase(&entry.name);
        let p = path_lower.as_str();
        let n = name_lower.as_str();
        if str_contains(p, "/library/") {
            if str_contains(p, "/library/caches") {
                return FileCategory::Cache;
            }
            if str_contains(p, "/library/logs") {
                return FileCategory::LogFiles;
            }
            return FileCategory::LibraryFiles;
        }
        if str_contains(p, "/downloads/") {
            return FileCategory::Downloads;
        }
        if str_contains(p, "/documents/") {
            return FileCategory::Documents;
        }
        if str_contains(p, "node_modules") {
            return FileCategory::NodeModules;
        }
        if str_contains(p, "cache") || str_contains(p, ".cache") {
            return FileCategory::Cache;
        }
        if Self::is_build_artifact(p, n) {
            return FileCategory::BuildArtifacts;
        }
        if Self::is_package_cache(p) {
            return FileCategory::PackageCache;
        }
        if Self::is_temp_file(p, n) {
            return FileCategory::TempFiles;
        }
        if Self::is_log_file(p, n) {
            return FileCategory::LogFiles;
        }
        if Self::is_archive(n) {
            return FileCategory::Archives;
        }
        if Self::is_media_file(n) {
            return FileCategory::Media;
        }
        if entry.is_hidden {
            return FileCategory::HiddenFiles;
        }
        if entry.size > LARGE_FILE_BYTES {
            return FileCategory::LargeFiles;
        }
        let age: i128 = now as i128 - entry.modified as i128;
        if age >= OLD_FILE_SECS as i128 {
            return FileCategory::OldFiles;
        }
        FileCategory::Regular
    }

    /// Whether the lowercase path and name mark a build output.
    pub fn is_build_artifact(path_str: &str, name_lower: &str) -> (b: bool)
        ensures
            b == spec_is_build_artifact(path_str@, name_lower@),
    {
        str_contains(path_str, "target/debug") || str_contains(path_str, "target/release")
            || str_contains(path_str, "/build/") || str_contains(path_str, "/dist/")
            || str_contains(path_str, ".next/") || str_contains(path_str, "__pycache__")
            || str_contains(path_str, ".pyc") || str_eq(name_lower, "target")
            || str_eq(name_lower, "build") || str_eq(name_lower, "dist")
    }

    /// Whether the lowercase path lies in a package manager's cache.
    pub fn is_package_cache(path_str: &str) -> (b: bool)
        ensures
            b == spec_is_package_cache(path_str@),
    {
        str_contains(path_str, ".cargo/registry") || str_contains(path_str, ".npm")
            || str_contains(path_str, ".yarn/cache") || str_contains(path_str, "pip/cache")
            || str_contains(path_str, ".gradle/caches") || str_contains(path_str, ".m2/repository")
            || str_contains(path_str, "cocoapods/repos") || str_contains(path_str, ".pub-cache")
    }

    /// Whether the lowercase path and name mark a temporary file.
    pub fn is_temp_file(path_str: &str, name_lower: &str) -> (b: bool)
        ensures
            b == spec_is_temp_file(path_str@, name_lower@),
    {
        str_contains(path_str, "/tmp/") || str_contains(path_str, "/temp/")
            || str_starts_with(name_lower, "tmp") || str_starts_with(name_lower, "temp")
            || str_ends_with(name_lower, ".tmp") || str_ends_with(name_lower, ".temp")
            || str_ends_with(name_lower, ".swp") || str_ends_with(name_lower, "~")
    }

    /// Whether the lowercase path and name mark a log file.
    pub fn is_log_file(path_str: &str, name_lower: &str) -> (b: bool)
        ensures
            b == spec_is_log_file(path_str@, name_lower@),
    {
        str_ends_with(name_lower, ".log") || str_contains(path_str, "/logs/")
            || str_ends_with(name_lower, ".log.gz") || str_ends_with(name_lower, ".log.1")
            || str_ends_with(name_lower, ".log.old")
    }

    /// Whether the lowercase name marks an archive or disk image.
    pub fn is_archive(name_lower: &str) -> (b: bool)
        ensures
            b == spec_is_archive(name_lower@),
    {
        str_ends_with(name_lower, ".zip") || str_ends_with(name_lower, ".tar")
            || str_ends_with(name_lower, ".tar.gz") || str_ends_with(name_lower, ".tgz")
            || str_ends_with(name_lower, ".rar") || str_ends_with(name_lower, ".7z")
            || str_ends_with(name_lower, ".dmg") || str_ends_with(name_lower, ".iso")
    }

    /// Whether the lowercase name marks a video, audio or image file.
    pub fn is_media_file(name_lower: &str) -> (b: bool)
        ensures
            b == spec_is_media_file(name_lower@),
    {
        str_ends_with(name_lower, ".mp4") || str_ends_with(name_lower, ".mov")
            || str_ends_with(name_lower, ".avi") || str_ends_with(name_lower, ".mkv")
            || str_ends_with(name_lower, ".mp3") || str_ends_with(name_lower, ".wav")
            || str_ends_with(name_lower, ".flac") || str_ends_with(name_lower, ".jpg")
            || str_ends_with(name_lower, ".jpeg") || str_ends_with(name_lower, ".png")
            || str_ends_with(name_lower, ".gif") || str_ends_with(name_lower, ".heic")
            || str_ends_with(name_lower, ".raw")
    }
}

/// A system entry is always put among the system files, whatever the other
/// entries and the time, and so is never offered as safe to delete.
pub proof fn law_system_files_stay_system(e: FileEntry, all: Seq<FileEntry>, now: i64)
    requires
        e.is_system,
    ensures
        category_in(e, all, now) == FileCategory::SystemFiles,
        !category_in(e, all, now).safe(),
{
}


/// The name and path patterns of each rule: a lowercase path `p` or name `n`
/// with one of these pieces is a build output, a package cache, a temporary
/// file, a log, an archive or a media file.
pub proof fn law_pattern_pieces(p: Seq<char>, n: Seq<char>)
    ensures
        seq_contains(p, "target/debug"@) ==> spec_is_build_artifact(p, n),
        seq_contains(p, "target/release"@) ==> spec_is_build_artifact(p, n),
        seq_contains(p, "/build/"@) ==> spec_is_build_artifact(p, n),
        seq_contains(p, "/dist/"@) ==> spec_is_build_artifact(p, n),
        seq_contains(p, ".next/"@) ==> spec_is_build_artifact(p, n),
        seq_contains(p, "__pycache__"@) ==> spec_is_build_artifact(p, n),
        seq_contains(p, ".pyc"@) ==> spec_is_build_artifact(p, n),
        n == "target"@ ==> spec_is_build_artifact(p, n),
        n == "build"@ ==> spec_is_build_artifact(p, n),
        n == "dist"@ ==> spec_is_build_artifact(p, n),
        seq_contains(p, ".cargo/registry"@) ==> spec_is_package_cache(p),
        seq_contains(p, ".npm"@) ==> spec_is_package_cache(p),
        seq_contains(p, ".yarn/cache"@) ==> spec_is_package_cache(p),
        seq_contains(p, "pip/cache"@) ==> spec_is_package_cache(p),
        seq_contains(p, ".gradle/caches"@) ==> spec_is_package_cache(p),
        seq_contains(p, ".m2/repository"@) ==> spec_is_package_cache(p),
        seq_contains(p, "cocoapods/repos"@) ==> spec_is_package_cache(p),
        seq_contains(p, ".pub-cache"@) ==> spec_is_package_cache(p),
        seq_contains(p, "/tmp/"@) ==> spec_is_temp_file(p, n),
        seq_contains(p, "/temp/"@) ==> spec_is_temp_file(p, n),
        seq_starts_with(n, "tmp"@) ==> spec_is_temp_file(p, n),
        seq_starts_with(n, "temp"@) ==> spec_is_temp_file(p, n),
        seq_ends_with(n, ".tmp"@) ==> spec_is_temp_file(p, n),
        seq_ends_with(n, ".temp"@) ==> spec_is_temp_file(p, n),
        seq_ends_with(n, ".swp"@) ==> spec_is_temp_file(p, n),
        seq_ends_with(n, "~"@) ==> spec_is_temp_file(p, n),
        seq_ends_with(n, ".log"@) ==> spec_is_log_file(p, n),
        seq_ends_with(n, ".log.gz"@) ==> spec_is_log_file(p, n),
        seq_ends_with(n, ".log.1"@) ==> spec_is_log_file(p, n),
        seq_ends_with(n, ".log.old"@) ==> spec_is_log_file(p, n),
        seq_contains(p, "/logs/"@) ==> spec_is_log_file(p, n),
        seq_ends_with(n, ".zip"@) ==> spec_is_archive(n),
        seq_ends_with(n, ".tar"@) ==> spec_is_archive(n),
        seq_ends_with(n, ".tar.gz"@) ==> spec_is_archive(n),
        seq_ends_with(n, ".tgz"@) ==> spec_is_archive(n),
        seq_ends_with(n, ".rar"@) ==> spec_is_archive(n),
        seq_ends_with(n, ".7z"@) ==> spec_is_archive(n),
        seq_ends_with(n, ".dmg"@) ==> spec_is_archive(n),
        seq_ends_with(n, ".iso"@) ==> spec_is_archive(n),
        seq_ends_with(n, ".mp4"@) ==> spec_is_media_file(n),
        seq_ends_with(n, ".mov"@) ==> spec_is_media_file(n),
        seq_ends_with(n, ".avi"@) ==> spec_is_media_file(n),
        seq_ends_with(n, ".mkv"@) ==> spec_is_media_file(n),
        seq_ends_with(n, ".mp3"@) ==> spec_is_media_file(n),
        seq_ends_with(n, ".wav"@) ==> spec_is_media_file(n),
        seq_ends_with(n, ".flac"@) ==> spec_is_media_file(n),
        seq_ends_with(n, ".jpg"@) ==> spec_is_media_file(n),
        seq_ends_with(n, ".jpeg"@) ==> spec_is_media_file(n),
        seq_ends_with(n, ".png"@) ==> spec_is_media_file(n),
        seq_ends_with(n, ".gif"@) ==> spec_is_media_file(n),
        seq_ends_with(n, ".heic"@) ==> spec_is_media_file(n),
        seq_ends_with(n, ".raw"@) ==> spec_is_media_file(n),
{
}

/// The lowercase path `p` matches none of the folder rules that come first:
/// Library, Downloads, Documents, node_modules and caches.
pub open spec fn outside_special_folders(p: Seq<char>) -> bool {
    &&& !seq_contains(p, "/library/"@)
    &&& !seq_contains(p, "/downloads/"@)
    &&& !seq_contains(p, "/documents/"@)
    &&& !seq_contains(p, "node_modules"@)
    &&& !seq_contains(p, "cache"@)
    &&& !seq_contains(p, ".cache"@)
}

/// The rules are tried in order and the first that matches decides: the
/// Library folder (its caches, its logs, the rest), Downloads, Documents,
/// node_modules and caches by path; then build outputs, package caches,
/// temporary files, logs, archives and media; then hidden files, files over
/// 100 MiB, and files last changed more than 365 days before `now`.
pub proof fn law_rule_order(p: Seq<char>, n: Seq<char>, hidden: bool, size: u64, modified: i64, now: i64)
    ensures
        seq_contains(p, "/library/"@) && seq_contains(p, "/library/caches"@) ==> pattern_category(
            p, n, hidden, size, modified, now) == FileCategory::Cache,
        seq_contains(p, "/library/"@) && !seq_contains(p, "/library/caches"@) && seq_contains(p, "/library/logs"@)
            ==> pattern_category(p, n, hidden, size, modified, now) == FileCategory::LogFiles,
        seq_contains(p, "/library/"@) && !seq_contains(p, "/library/caches"@) && !seq_contains(p, "/library/logs"@)
            ==> pattern_category(p, n, hidden, size, modified, now) == FileCategory::LibraryFiles,
        !seq_contains(p, "/library/"@) && seq_contains(p, "/downloads/"@) ==> pattern_category(
            p, n, hidden, size, modified, now) == FileCategory::Downloads,
        !seq_contains(p, "/library/"@) && !seq_contains(p, "/downloads/"@) && seq_contains(p, "/documents/"@)
            ==> pattern_category(p, n, hidden, size, modified, now) == FileCategory::Documents,
        !seq_contains(p, "/library/"@) && !seq_contains(p, "/downloads/"@) && !seq_contains(p, "/documents/"@)
            && seq_contains(p, "node_modules"@) ==> pattern_category(p, n, hidden, size, modified, now)
            == FileCategory::NodeModules,
        !seq_contains(p, "/library/"@) && !seq_contains(p, "/downloads/"@) && !seq_contains(p, "/documents/"@)
            && !seq_contains(p, "node_modules"@) && (seq_contains(p, "cache"@) || seq_contains(p, ".cache"@))
            ==> pattern_category(p, n, hidden, size, modified, now) == FileCategory::Cache,
        outside_special_folders(p) && spec_is_build_artifact(p, n) ==> pattern_category(
            p, n, hidden, size, modified, now) == FileCategory::BuildArtifacts,
        outside_special_folders(p) && !spec_is_build_artifact(p, n) && spec_is_package_cache(p)
            ==> pattern_category(p, n, hidden, size, modified, now) == FileCategory::PackageCache,
        outside_special_folders(p) && !spec_is_build_artifact(p, n) && !spec_is_package_cache(p)
            && spec_is_temp_file(p, n) ==> pattern_category(p, n, hidden, size, modified, now)
            == FileCategory::TempFiles,
        outside_special_folders(p) && !spec_is_build_artifact(p, n) && !spec_is_package_cache(p)
            && !spec_is_temp_file(p, n) && spec_is_log_file(p, n) ==> pattern_category(
            p, n, hidden, size, modified, now) == FileCategory::LogFiles,
        outside_special_folders(p) && !spec_is_build_artifact(p, n) && !spec_is_package_cache(p)
            && !spec_is_temp_file(p, n) && !spec_is_log_file(p, n) && spec_is_archive(n) ==> pattern_category(
            p, n, hidden, size, modified, now) == FileCategory::Archives,
        outside_special_folders(p) && !spec_is_build_artifact(p, n) && !spec_is_package_cache(p)
            && !spec_is_temp_file(p, n) && !spec_is_log_file(p, n) && !spec_is_archive(n)
            && spec_is_media_file(n) ==> pattern_category(p, n, hidden, size, modified, now)
            == FileCategory::Media,
        outside_special_folders(p) && !spec_is_build_artifact(p, n) && !spec_is_package_cache(p)
            && !spec_is_temp_file(p, n) && !spec_is_log_file(p, n) && !spec_is_archive(n)
            && !spec_is_media_file(n) ==> pattern_category(p, n, hidden, size, modified, now) == (if hidden {
            FileCategory::HiddenFiles
        } else if size > 104857600 {
            FileCategory::LargeFiles
        } else if now - modified >= 31622400 {
            FileCategory::OldFiles
        } else {
            FileCategory::Regular
        }),
{
}

/// A file that is not a system file and has no namesake among `all`, whose
/// lowercase path matches none of the folder rules nor the build, package
/// cache, temporary and log rules, and whose lowercase name ends in an
/// archive suffix (`.zip`, `.tar`, `.tar.gz`, `.tgz`, `.rar`, `.7z`, `.dmg`,
/// `.iso`) is an archive.
pub proof fn law_archive_files(e: FileEntry, all: Seq<FileEntry>, now: i64)
    requires
        !e.is_system,
        !has_namesake(e, all),
        outside_special_folders(lowercase(e.path@)),
        !spec_is_build_artifact(lowercase(e.path@), lowercase(e.name@)),
        !spec_is_package_cache(lowercase(e.path@)),
        !spec_is_temp_file(lowercase(e.path@), lowercase(e.name@)),
        !spec_is_log_file(lowercase(e.path@), lowercase(e.name@)),
        seq_ends_with(lowercase(e.name@), ".zip"@) || seq_ends_with(lowercase(e.name@), ".tar"@)
            || seq_ends_with(lowercase(e.name@), ".tar.gz"@) || seq_ends_with(lowercase(e.name@), ".tgz"@)
            || seq_ends_with(lowercase(e.name@), ".rar"@) || seq_ends_with(lowercase(e.name@), ".7z"@)
            || seq_ends_with(lowercase(e.name@), ".dmg"@) || seq_ends_with(lowercase(e.name@), ".iso"@),
    ensures
        category_in(e, all, now) == FileCategory::Archives,
        category_in(e, all, now).safe(),
{
    law_pattern_pieces(lowercase(e.path@), lowercase(e.name@));
    law_rule_order(lowercase(e.path@), lowercase(e.name@), e.is_hidden, e.size, e.modified, now);
}

} // verus!
