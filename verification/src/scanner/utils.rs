//! Path tests that decide whether a scanned path is hidden or belongs to the
//! system, and the warning shown before touching a sensitive path.
use vstd::prelude::*;
use crate::text::{seq_contains, seq_starts_with, seq_ends_with, str_contains, str_starts_with, str_ends_with};
use crate::paths::{path_file_name, file_name_of};

verus! {

/// The last component of the path begins with a dot.
pub open spec fn spec_is_hidden_path(p: Seq<char>) -> bool {
    match path_file_name(p) {
        Some(n) => seq_starts_with(n, "."@),
        None => false,
    }
}

/// The path lies in an operating-system tree, a key store, or is a shell
/// startup file.
pub open spec fn spec_is_system_path(p: Seq<char>) -> bool {
    ||| seq_starts_with(p, "/System"@)
    ||| seq_starts_with(p, "/usr"@)
    ||| seq_starts_with(p, "/bin"@)
    ||| seq_starts_with(p, "/sbin"@)
    ||| seq_contains(p, "/Library/Keychains"@)
    ||| seq_contains(p, "/.ssh"@)
    ||| seq_contains(p, "/.gnupg"@)
    ||| seq_ends_with(p, ".zshrc"@)
    ||| seq_ends_with(p, ".bashrc"@)
    ||| seq_ends_with(p, ".bash_profile"@)
}

/// The warning for a sensitive path, if any: the first rule that matches.
pub open spec fn system_warning(p: Seq<char>) -> Option<Seq<char>> {
    if seq_contains(p, "Keychains"@) {
        Some("⚠️ Contains encryption keys!"@)
    } else if seq_contains(p, ".ssh"@) {
        Some("⚠️ SSH keys!"@)
    } else if seq_contains(p, ".gnupg"@) {
        Some("⚠️ GPG keys!"@)
    } else if seq_contains(p, "/System"@) {
        Some("🛑 SYSTEM FILES!"@)
    } else {
        None
    }
}

/// Whether the last component of `path` begins with a dot.
pub fn is_hidden_path(path: &str) -> (b: bool)
    ensures
        b == spec_is_hidden_path(path@),
{
    match file_name_of(path) {
        Some(n) => str_starts_with(n.as_str(), "."),
        None => false,
    }
}

/// Whether `path` lies in an operating-system tree or key store, or is a
/// shell startup file.
pub fn is_system_path(path: &str) -> (b: bool)
    ensures
        b == spec_is_system_path(path@),
{
    str_starts_with(path, "/System") || str_starts_with(path, "/usr") || str_starts_with(path, "/bin")
        || str_starts_with(path, "/sbin") || str_contains(path, "/Library/Keychains")
        || str_contains(path, "/.ssh") || str_contains(path, "/.gnupg") || str_ends_with(path, ".zshrc")
        || str_ends_with(path, ".bashrc") || str_ends_with(path, ".bash_profile")
}

/// The warning to show before deleting `path`, if it is sensitive.
pub fn get_system_warning(path: &str) -> (w: Option<String>)
    ensures
        match w {
            Some(s) => system_warning(path@) == Some(s@),
            None => system_warning(path@) is None,
        },
{
    if str_contains(path, "Keychains") {
        return Some(String::from_str("⚠️ Contains encryption keys!"));
    }
    if str_contains(path, ".ssh") {
        return Some(String::from_str("⚠️ SSH keys!"));
    }
    if str_contains(path, ".gnupg") {
        return Some(String::from_str("⚠️ GPG keys!"));
    }
    if str_contains(path, "/System") {
        return Some(String::from_str("🛑 SYSTEM FILES!"));
    }
    None
}


/// The paths to warn about: those in operating-system trees (`/System`,
/// `/usr`, `/bin`, `/sbin`), key stores (`/Library/Keychains`, `/.ssh`,
/// `/.gnupg`) and shell startup files (`.zshrc`, `.bashrc`,
/// `.bash_profile`), and no others.
pub proof fn law_sensitive_paths(p: Seq<char>)
    ensures
        seq_starts_with(p, "/System"@) ==> spec_is_system_path(p),
        seq_starts_with(p, "/usr"@) ==> spec_is_system_path(p),
        seq_starts_with(p, "/bin"@) ==> spec_is_system_path(p),
        seq_starts_with(p, "/sbin"@) ==> spec_is_system_path(p),
        seq_contains(p, "/Library/Keychains"@) ==> spec_is_system_path(p),
        seq_contains(p, "/.ssh"@) ==> spec_is_system_path(p),
        seq_contains(p, "/.gnupg"@) ==> spec_is_system_path(p),
        seq_ends_with(p, ".zshrc"@) ==> spec_is_system_path(p),
        seq_ends_with(p, ".bashrc"@) ==> spec_is_system_path(p),
        seq_ends_with(p, ".bash_profile"@) ==> spec_is_system_path(p),
        spec_is_system_path(p) ==> seq_starts_with(p, "/System"@) || seq_starts_with(p, "/usr"@)
            || seq_starts_with(p, "/bin"@) || seq_starts_with(p, "/sbin"@) || seq_contains(p, "/Library/Keychains"@)
            || seq_contains(p, "/.ssh"@) || seq_contains(p, "/.gnupg"@) || seq_ends_with(p, ".zshrc"@)
            || seq_ends_with(p, ".bashrc"@) || seq_ends_with(p, ".bash_profile"@),
{
}

} // verus!
