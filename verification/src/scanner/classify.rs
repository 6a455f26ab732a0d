//! Cheap path-based grouping used while a scan runs: it looks only at the
//! path text, the last component and the extension.
use vstd::prelude::*;
use crate::text::{seq_contains, seq_starts_with, lowercase, to_lowercase, str_contains, str_starts_with, str_eq};
use crate::paths::{path_file_name, path_extension, file_name_of, extension_of};

verus! {

/// The path lies in an operating-system tree or key store.
pub open spec fn spec_is_system_path(p: Seq<char>) -> bool {
    ||| seq_starts_with(p, "/System"@)
    ||| seq_starts_with(p, "/usr"@)
    ||| seq_starts_with(p, "/bin"@)
    ||| seq_starts_with(p, "/sbin"@)
    ||| seq_contains(p, "/Library/Keychains"@)
    ||| seq_contains(p, "/.ssh"@)
    ||| seq_contains(p, "/.gnupg"@)
}

/// Whether `path` lies in an operating-system tree or key store.
pub fn is_system_path(path: &str) -> (b: bool)
    ensures
        b == spec_is_system_path(path@),
{
    str_starts_with(path, "/System") || str_starts_with(path, "/usr") || str_starts_with(path, "/bin")
        || str_starts_with(path, "/sbin") || str_contains(path, "/Library/Keychains")
        || str_contains(path, "/.ssh") || str_contains(path, "/.gnupg")
}

/// The text, or the empty text.
pub open spec fn or_empty(o: Option<Seq<char>>) -> Seq<char> {
    match o {
        Some(s) => s,
        None => seq![],
    }
}

/// A log extension.
pub open spec fn is_log_ext(e: Seq<char>) -> bool {
    ||| e == "log"@
    ||| e == "logs"@
}

/// A media extension.
pub open spec fn is_media_ext(e: Seq<char>) -> bool {
    ||| e == "mp4"@
    ||| e == "mkv"@
    ||| e == "avi"@
    ||| e == "mov"@
    ||| e == "mp3"@
    ||| e == "wav"@
    ||| e == "flac"@
    ||| e == "m4a"@
    ||| e == "aac"@
    ||| e == "jpg"@
    ||| e == "jpeg"@
    ||| e == "png"@
    ||| e == "gif"@
    ||| e == "bmp"@
    ||| e == "tiff"@
    ||| e == "webp"@
    ||| e == "heic"@
    ||| e == "psd"@
    ||| e == "ai"@
    ||| e == "svg"@
}

/// An archive extension.
pub open spec fn is_archive_ext(e: Seq<char>) -> bool {
    ||| e == "zip"@
    ||| e == "tar"@
    ||| e == "gz"@
    ||| e == "rar"@
    ||| e == "7z"@
    ||| e == "bz2"@
    ||| e == "xz"@
    ||| e == "dmg"@
    ||| e == "iso"@
}

/// A document extension.
pub open spec fn is_document_ext(e: Seq<char>) -> bool {
    ||| e == "pdf"@
    ||| e == "doc"@
    ||| e == "docx"@
    ||| e == "xls"@
    ||| e == "xlsx"@
    ||| e == "ppt"@
    ||| e == "pptx"@
    ||| e == "txt"@
    ||| e == "rtf"@
    ||| e == "odt"@
}

/// A compiled-output extension.
pub open spec fn is_object_ext(e: Seq<char>) -> bool {
    ||| e == "o"@
    ||| e == "obj"@
    ||| e == "class"@
    ||| e == "pyc"@
    ||| e == "pyo"@
}

/// The live-scan group of a path with last component `n` and lowercase
/// extension `e`: path patterns first, then the extension, then the flags.
pub open spec fn scan_group(p: Seq<char>, n: Seq<char>, e: Seq<char>, is_hidden: bool, is_system: bool) -> Seq<char> {
    if seq_contains(p, "/Caches/"@) || seq_contains(p, "/cache/"@) || n == "Cache"@ || n == "Caches"@ {
        "Cache"@
    } else if seq_contains(p, "/Temp/"@) || seq_contains(p, "/tmp/"@) || seq_starts_with(n, "tmp"@) {
        "Temp Files"@
    } else if n == "node_modules"@ || seq_contains(p, "/node_modules/"@) {
        "node_modules"@
    } else if seq_contains(p, "/target/"@) && (seq_contains(p, "/debug/"@) || seq_contains(p, "/release/"@)) {
        "Build Artifacts"@
    } else if seq_contains(p, "/.cargo/"@) || seq_contains(p, "/.npm/"@) || seq_contains(p, "/.gradle/"@)
        || seq_contains(p, "/CocoaPods/"@) || seq_contains(p, "/.m2/"@) || seq_contains(p, "/pip/"@) {
        "Package Cache"@
    } else if seq_contains(p, "/Library/"@) && !is_system {
        "Library Files"@
    } else if seq_contains(p, "/Downloads/"@) {
        "Downloads"@
    } else if seq_contains(p, "/Documents/"@) {
        "Documents"@
    } else if is_log_ext(e) {
        "Log Files"@
    } else if is_media_ext(e) {
        "Media"@
    } else if is_archive_ext(e) {
        "Archives"@
    } else if is_document_ext(e) {
        "Documents"@
    } else if is_object_ext(e) {
        "Build Artifacts"@
    } else if is_system {
        "System Files"@
    } else if is_hidden {
        "Hidden Files"@
    } else {
        "Regular"@
    }
}

/// The live-scan group of the path `p`.
pub open spec fn path_scan_group(p: Seq<char>, is_hidden: bool, is_system: bool) -> Seq<char> {
    scan_group(p, or_empty(path_file_name(p)), lowercase(or_empty(path_extension(p))), is_hidden, is_system)
}

fn ext_group(e: &str) -> (g: Option<&'static str>)
    ensures
        g is Some <==> (is_log_ext(e@) || is_media_ext(e@) || is_archive_ext(e@) || is_document_ext(e@) || is_object_ext(e@)),
        g matches Some(s) ==> s@ == (if is_log_ext(e@) { "Log Files"@ } else if is_media_ext(e@) { "Media"@ }
            else if is_archive_ext(e@) { "Archives"@ } else if is_document_ext(e@) { "Documents"@ }
            else { "Build Artifacts"@ }),
{
    if str_eq(e, "log") || str_eq(e, "logs") {
        return Some("Log Files");
    }
    if str_eq(e, "mp4") || str_eq(e, "mkv") || str_eq(e, "avi") || str_eq(e, "mov") || str_eq(e, "mp3") || str_eq(e, "wav") || str_eq(e, "flac") || str_eq(e, "m4a") || str_eq(e, "aac") || str_eq(e, "jpg") || str_eq(e, "jpeg") || str_eq(e, "png") || str_eq(e, "gif") || str_eq(e, "bmp") || str_eq(e, "tiff") || str_eq(e, "webp") || str_eq(e, "heic") || str_eq(e, "psd") || str_eq(e, "ai") || str_eq(e, "svg") {
        return Some("Media");
    }
    if str_eq(e, "zip") || str_eq(e, "tar") || str_eq(e, "gz") || str_eq(e, "rar") || str_eq(e, "7z") || str_eq(e, "bz2") || str_eq(e, "xz") || str_eq(e, "dmg") || str_eq(e, "iso") {
        return Some("Archives");
    }
    if str_eq(e, "pdf") || str_eq(e, "doc") || str_eq(e, "docx") || str_eq(e, "xls") || str_eq(e, "xlsx") || str_eq(e, "ppt") || str_eq(e, "pptx") || str_eq(e, "txt") || str_eq(e, "rtf") || str_eq(e, "odt") {
        return Some("Documents");
    }
    if str_eq(e, "o") || str_eq(e, "obj") || str_eq(e, "class") || str_eq(e, "pyc") || str_eq(e, "pyo") {
        return Some("Build Artifacts");
    }
    None
}

/// The live-scan group of `path`, used to chart what a running scan finds.
pub fn categorize_path(path: &str, is_hidden: bool, is_system: bool) -> (g: &'static str)
    ensures
        g@ == path_scan_group(path@, is_hidden, is_system),
{
    let name = match file_name_of(path) {
        Some(n) => n,
        None => String::new(),
    };
    let raw_ext = match extension_of(path) {
        Some(e) => e,
        None => String::new(),
    };
    let ext = to_lowercase(raw_ext.as_str());
    let n = name.as_str();
    if str_contains(path, "/Caches/") || str_contains(path, "/cache/") || str_eq(n, "Cache") || str_eq(n, "Caches") {
        return "Cache";
    }
    if str_contains(path, "/Temp/") || str_contains(path, "/tmp/") || str_starts_with(n, "tmp") {
        return "Temp Files";
    }
    if str_eq(n, "node_modules") || str_contains(path, "/node_modules/") {
        return "node_modules";
    }
    if str_contains(path, "/target/") && (str_contains(path, "/debug/") || str_contains(path, "/release/")) {
        return "Build Artifacts";
    }
    if str_contains(path, "/.cargo/") || str_contains(path, "/.npm/") || str_contains(path, "/.gradle/")
        || str_contains(path, "/CocoaPods/") || str_contains(path, "/.m2/") || str_contains(path, "/pip/") {
        return "Package Cache";
    }
    if str_contains(path, "/Library/") && !is_system {
        return "Library Files";
    }
    if str_contains(path, "/Downloads/") {
        return "Downloads";
    }
    if str_contains(path, "/Documents/") {
        return "Documents";
    }
    match ext_group(ext.as_str()) {
        Some(g) => {
            return g;
        },
        None => {},
    }
    if is_system {
        return "System Files";
    }
    if is_hidden {
        return "Hidden Files";
    }
    "Regular"
}


/// The operating-system trees and key stores: a path that starts with
/// `/System`, `/usr`, `/bin` or `/sbin`, or that holds `/Library/Keychains`,
/// `/.ssh` or `/.gnupg`, is a system path, and no other path is.
pub proof fn law_system_paths(p: Seq<char>)
    ensures
        seq_starts_with(p, "/System"@) ==> spec_is_system_path(p),
        seq_starts_with(p, "/usr"@) ==> spec_is_system_path(p),
        seq_starts_with(p, "/bin"@) ==> spec_is_system_path(p),
        seq_starts_with(p, "/sbin"@) ==> spec_is_system_path(p),
        seq_contains(p, "/Library/Keychains"@) ==> spec_is_system_path(p),
        seq_contains(p, "/.ssh"@) ==> spec_is_system_path(p),
        seq_contains(p, "/.gnupg"@) ==> spec_is_system_path(p),
        spec_is_system_path(p) ==> seq_starts_with(p, "/System"@) || seq_starts_with(p, "/usr"@)
            || seq_starts_with(p, "/bin"@) || seq_starts_with(p, "/sbin"@) || seq_contains(p, "/Library/Keychains"@)
            || seq_contains(p, "/.ssh"@) || seq_contains(p, "/.gnupg"@),
{
}

} // verus!
