//! Scan settings, and the ordering of what a scan found.
use vstd::prelude::*;
use crate::models::{FileEntry, ScanResult};
use crate::scanner::utils::{
    is_hidden_path, is_system_path, get_system_warning, spec_is_hidden_path, spec_is_system_path,
    system_warning,
};
use crate::scanner::walk::ScanWalk;
use crate::sorting::{IntKey, stable_order, is_order_of, follows_keys};
use crate::text::{seq_starts_with, str_eq, str_starts_with};

verus! {

/// Bytes in a mebibyte.
pub const MIB: u64 = 1048576;

/// Scan settings.
pub struct Scanner {
    min_size_bytes: u64,
    max_depth: usize,
}

/// A scan of this path covers a whole disk or a home directory.
pub open spec fn spec_is_full_disk(p: Seq<char>) -> bool {
    p == "/"@ || p == "/Users"@ || seq_starts_with(p, "/Users/"@)
}

/// The sizes of the entries, as sort keys.
pub open spec fn size_keys(es: Seq<FileEntry>) -> Seq<IntKey> {
    es.map_values(|e: FileEntry| IntKey(e.size as i128))
}

/// `r` holds the entries of `es`, largest first (ties in their order in
/// `es`).
pub open spec fn is_largest_first(r: Seq<FileEntry>, es: Seq<FileEntry>) -> bool {
    exists|order: Seq<usize>|
        #[trigger] is_order_of(order, es.len()) && follows_keys(order, size_keys(es), true) && r.len()
            == es.len() && forall|i: int| 0 <= i < r.len() ==> #[trigger] r[i] == es[order[i] as int]
}

/// The first `limit` files (not directories) of `es`, in order, as far as
/// `n` entries are looked at.
pub open spec fn first_files_upto(es: Seq<FileEntry>, limit: nat, n: nat) -> Seq<FileEntry>
    decreases n,
{
    if n == 0 {
        seq![]
    } else {
        let prev = first_files_upto(es, limit, (n - 1) as nat);
        if !es[n - 1].is_dir && prev.len() < limit {
            prev.push(es[n - 1])
        } else {
            prev
        }
    }
}

impl Scanner {
    /// Settings that list files of at least `min_size_mb` mebibytes.  The
    /// depth is kept but not used: scans always go all the way down.
    pub fn new(min_size_mb: u64, max_depth: usize) -> (s: Self)
        requires
            min_size_mb * MIB <= u64::MAX,
        ensures
            s.min_size() == min_size_mb * MIB,
            s.depth() == max_depth,
    {
        Scanner { min_size_bytes: min_size_mb * MIB, max_depth }
    }

    /// The least size, in bytes, of a listed file.
    pub closed spec fn min_size(&self) -> u64 {
        self.min_size_bytes
    }

    /// The depth the scan was asked for.
    pub closed spec fn depth(&self) -> usize {
        self.max_depth
    }

    /// The least size, in bytes, of a listed file.
    pub fn min_size_bytes(&self) -> (b: u64)
        ensures
            b == self.min_size(),
    {
        self.min_size_bytes
    }

    /// The depth the scan was asked for.
    pub fn max_depth(&self) -> (d: usize)
        ensures
            d == self.depth(),
    {
        self.max_depth
    }

    /// Whether the last component of `path` begins with a dot.
    pub fn is_hidden(path: &str) -> (b: bool)
        ensures
            b == spec_is_hidden_path(path@),
    {
        is_hidden_path(path)
    }

    /// Whether `path` is a system path.
    pub fn is_system_path(path: &str) -> (b: bool)
        ensures
            b == spec_is_system_path(path@),
    {
        is_system_path(path)
    }

    /// The warning to show before deleting `path`, if it is sensitive.
    pub fn get_system_warning(path: &str) -> (w: Option<String>)
        ensures
            match w {
                Some(s) => system_warning(path@) == Some(s@),
                None => system_warning(path@) is None,
            },
    {
        get_system_warning(path)
    }

    /// Whether a scan of `path` covers a whole disk or a home directory, in
    /// which case duplicated mount points are skipped too.
    pub fn is_full_disk_scan(path: &str) -> (b: bool)
        ensures
            b == spec_is_full_disk(path@),
    {
        str_eq(path, "/") || str_eq(path, "/Users") || str_starts_with(path, "/Users/")
    }

    /// A walk from `root` with these settings.
    pub fn start_walk(&self, root: String, root_device: Option<u64>) -> (w: ScanWalk)
        ensures
            w.well_formed(),
            w.queue@ == seq![root],
            w.next == 0,
            w.min_size == self.min_size(),
            w.is_full_disk == spec_is_full_disk(root@),
            w.root_device == root_device,
            w.entries@.len() == 0,
            w.total_size == 0,
            w.files_count == 0,
            w.dirs_count == 0,
            w.seen_inodes@.len() == 0,
    {
        let full = Self::is_full_disk_scan(root.as_str());
        let w = ScanWalk::new(root, self.min_size_bytes, full, root_device);
        assert(w.queue@ =~= seq![w.queue@[0]]);
        w
    }

    /// The result of a finished walk: its entries, largest first.
    pub fn finish(walk: &ScanWalk) -> (r: ScanResult)
        ensures
            is_largest_first(r.entries@, walk.entries@),
    {
        ScanResult { entries: largest_first(&walk.entries) }
    }
}

/// The entries, largest first; ties keep their order.
pub fn largest_first(entries: &Vec<FileEntry>) -> (r: Vec<FileEntry>)
    ensures
        is_largest_first(r@, entries@),
{
    let mut keys: Vec<IntKey> = Vec::new();
    let mut i: usize = 0;
    while i < entries.len()
        invariant
            i <= entries@.len(),
            keys@ == size_keys(entries@).take(i as int),
        decreases entries@.len() - i,
    {
        keys.push(IntKey(entries[i].size as i128));
        assert(keys@ =~= size_keys(entries@).take(i + 1));
        i = i + 1;
    }
    assert(keys@ =~= size_keys(entries@));
    let order = stable_order(&keys, true);
    let mut r: Vec<FileEntry> = Vec::new();
    let mut t: usize = 0;
    while t < order.len()
        invariant
            t <= order@.len(),
            is_order_of(order@, entries@.len()),
            r@.len() == t,
            forall|x: int| 0 <= x < t ==> #[trigger] r@[x] == entries@[order@[x] as int],
        decreases order@.len() - t,
    {
        let j = order[t];
        r.push(entries[j].duplicate());
        t = t + 1;
    }
    assert(is_order_of(order@, entries@.len()) && follows_keys(order@, size_keys(entries@), true));
    r
}

/// The first `limit` files (not directories) among the entries, in order:
/// what a progress display shows.
pub fn first_files(entries: &Vec<FileEntry>, limit: usize) -> (r: Vec<FileEntry>)
    ensures
        r@ == first_files_upto(entries@, limit as nat, entries@.len()),
{
    let mut r: Vec<FileEntry> = Vec::new();
    let mut i: usize = 0;
    while i < entries.len()
        invariant
            i <= entries@.len(),
            r@ == first_files_upto(entries@, limit as nat, i as nat),
        decreases entries@.len() - i,
    {
        if !entries[i].is_dir && r.len() < limit {
            r.push(entries[i].duplicate());
        }
        i = i + 1;
    }
    r
}

/// The first `limit` entries, in order.
pub fn first_entries(entries: &Vec<FileEntry>, limit: usize) -> (r: Vec<FileEntry>)
    ensures
        r@ == entries@.take(if limit < entries@.len() { limit as int } else { entries@.len() as int }),
{
    let n = if limit < entries.len() { limit } else { entries.len() };
    let mut r: Vec<FileEntry> = Vec::new();
    let mut i: usize = 0;
    while i < n
        invariant
            i <= n,
            n <= entries@.len(),
            r@ == entries@.take(i as int),
        decreases n - i,
    {
        r.push(entries[i].duplicate());
        assert(r@ =~= entries@.take(i + 1));
        i = i + 1;
    }
    r
}

} // verus!
