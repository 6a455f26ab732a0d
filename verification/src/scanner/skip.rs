//! Paths the scanner does not descend into: virtual filesystems, and the
//! mount points and firmlinks through which the same bytes appear twice.
use vstd::prelude::*;
use crate::text::{seq_starts_with, str_eq, str_starts_with, concat2};

verus! {

/// Virtual filesystems, always skipped.
pub open spec fn virtual_paths() -> Seq<Seq<char>> {
    seq!["/dev"@, "/proc"@, "/sys"@, "/.vol"@, "/private/var/vm"@]
}

/// Mount points and duplicated trees, skipped when scanning a whole disk or a
/// home directory.
pub open spec fn root_skip_paths() -> Seq<Seq<char>> {
    seq!["/Volumes"@, "/System/Volumes/Data"@, "/System/Volumes/Preboot"@, "/System/Volumes/Recovery"@, "/System/Volumes/VM"@, "/System/Volumes/Update"@, "/System/Volumes/Hardware"@, "/System/Volumes/xarts"@, "/System/Volumes/iSCPreboot"@, "/System/Volumes/Preboot"@, "/private/var/folders"@, "/.Spotlight-V100"@, "/.fseventsd"@, "/.DocumentRevisions-V100"@, "/Network"@]
}

/// `p` is `root` or lies below it.
pub open spec fn at_or_under(p: Seq<char>, root: Seq<char>) -> bool {
    p == root || seq_starts_with(p, root + "/"@)
}

/// `p` is at or under one of `roots`.
pub open spec fn under_any(p: Seq<char>, roots: Seq<Seq<char>>) -> bool {
    exists|i: int| 0 <= i < roots.len() && at_or_under(p, #[trigger] roots[i])
}

/// The scanner skips `p`.
pub open spec fn spec_should_skip(p: Seq<char>, is_full_disk: bool) -> bool {
    under_any(p, virtual_paths()) || (is_full_disk && under_any(p, root_skip_paths()))
}

/// The views of a list of texts.
pub open spec fn str_views(v: Seq<&str>) -> Seq<Seq<char>> {
    v.map_values(|s: &str| s@)
}

fn virtual_path_list() -> (v: Vec<&'static str>)
    ensures
        str_views(v@) == virtual_paths(),
{
    let mut v: Vec<&'static str> = Vec::new();
    v.push("/dev");
    v.push("/proc");
    v.push("/sys");
    v.push("/.vol");
    v.push("/private/var/vm");
    assert(str_views(v@) =~= virtual_paths());
    v
}

fn root_skip_path_list() -> (v: Vec<&'static str>)
    ensures
        str_views(v@) == root_skip_paths(),
{
    let mut v: Vec<&'static str> = Vec::new();
    v.push("/Volumes");
    v.push("/System/Volumes/Data");
    v.push("/System/Volumes/Preboot");
    v.push("/System/Volumes/Recovery");
    v.push("/System/Volumes/VM");
    v.push("/System/Volumes/Update");
    v.push("/System/Volumes/Hardware");
    v.push("/System/Volumes/xarts");
    v.push("/System/Volumes/iSCPreboot");
    v.push("/System/Volumes/Preboot");
    v.push("/private/var/folders");
    v.push("/.Spotlight-V100");
    v.push("/.fseventsd");
    v.push("/.DocumentRevisions-V100");
    v.push("/Network");
    assert(str_views(v@) =~= root_skip_paths());
    v
}

/// Whether `path` is at or under one of `roots`.
fn under_one_of(path: &str, roots: &Vec<&'static str>) -> (b: bool)
    ensures
        b == under_any(path@, str_views(roots@)),
{
    let mut i: usize = 0;
    while i < roots.len()
        invariant
            i <= roots@.len(),
            forall|j: int| 0 <= j < i ==> !at_or_under(path@, #[trigger] str_views(roots@)[j]),
        decreases roots@.len() - i,
    {
        let root = roots[i];
        let with_slash = concat2(root, "/");
        if str_eq(path, root) || str_starts_with(path, with_slash.as_str()) {
            assert(at_or_under(path@, str_views(roots@)[i as int]));
            return true;
        }
        i = i + 1;
    }
    false
}

/// Whether the scanner should skip `path`: always under a virtual filesystem,
/// and under a duplicated mount point when scanning a whole disk.
pub fn should_skip_path(path: &str, is_full_disk: bool) -> (b: bool)
    ensures
        b == spec_should_skip(path@, is_full_disk),
{
    let virt = virtual_path_list();
    if under_one_of(path, &virt) {
        return true;
    }
    if is_full_disk {
        let more = root_skip_path_list();
        if under_one_of(path, &more) {
            return true;
        }
    }
    false
}

/// Whether a path on device `path_device` lies on another filesystem than the
/// scan root on `root_device`; unknown devices never count as different.
pub fn is_different_filesystem(path_device: Option<u64>, root_device: Option<u64>) -> (b: bool)
    ensures
        b == (root_device is Some && path_device is Some && path_device != root_device),
{
    match (root_device, path_device) {
        (Some(r), Some(d)) => d != r,
        _ => false,
    }
}

} // verus!
