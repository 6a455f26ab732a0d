//! The records that the scanner produces and the analyzer consumes.
use vstd::prelude::*;

verus! {

/// One file or directory found by a scan.
///
/// `modified` is the last-modification time in whole seconds since the Unix
/// epoch.
#[derive(Debug, Clone)]
pub struct FileEntry {
    pub path: String,
    pub size: u64,
    pub is_dir: bool,
    pub is_hidden: bool,
    pub is_system: bool,
    pub modified: i64,
    pub name: String,
}

impl FileEntry {
    /// An identical copy of the entry.
    pub fn duplicate(&self) -> (r: FileEntry)
        ensures
            r == *self,
    {
        FileEntry {
            path: self.path.clone(),
            size: self.size,
            is_dir: self.is_dir,
            is_hidden: self.is_hidden,
            is_system: self.is_system,
            modified: self.modified,
            name: self.name.clone(),
        }
    }
}

/// Copies of all the entries, in order.
pub fn copy_entries(entries: &[FileEntry]) -> (out: Vec<FileEntry>)
    ensures
        out@ == entries@,
{
    let mut out: Vec<FileEntry> = Vec::new();
    let mut i: usize = 0;
    while i < entries.len()
        invariant
            i <= entries@.len(),
            out@ == entries@.take(i as int),
        decreases entries@.len() - i,
    {
        out.push(entries[i].duplicate());
        assert(entries@.take(i + 1) =~= entries@.take(i as int).push(entries@[i as int]));
        i = i + 1;
    }
    assert(entries@.take(entries@.len() as int) =~= entries@);
    out
}

/// Live state of a running scan, shared with whoever displays it.
#[derive(Debug, Clone)]
pub struct ScanProgress {
    pub current_path: String,
    pub files_scanned: usize,
    pub dirs_scanned: usize,
    pub total_size_scanned: u64,
    pub is_complete: bool,
    pub entries: Vec<FileEntry>,
    /// Bytes found so far in each live-scan group, by group label.
    pub category_sizes: Vec<(String, u64)>,
}

impl Default for ScanProgress {
    fn default() -> (p: Self)
        ensures
            p.current_path@.len() == 0,
            p.files_scanned == 0,
            p.dirs_scanned == 0,
            p.total_size_scanned == 0,
            !p.is_complete,
            p.entries@.len() == 0,
            p.category_sizes@.len() == 0,
    {
        ScanProgress {
            current_path: String::new(),
            files_scanned: 0,
            dirs_scanned: 0,
            total_size_scanned: 0,
            is_complete: false,
            entries: Vec::new(),
            category_sizes: Vec::new(),
        }
    }
}

/// The entries a finished scan found.
#[derive(Debug, Clone)]
pub struct ScanResult {
    pub entries: Vec<FileEntry>,
}

/// Space on the filesystem that holds a path.
#[derive(Debug, Clone, Copy, PartialEq, Eq, Structural)]
pub struct StorageInfo {
    pub total_space: u64,
    pub available_space: u64,
    pub used_space: u64,
}

impl Default for StorageInfo {
    fn default() -> (s: Self)
        ensures
            s.total_space == 0,
            s.available_space == 0,
            s.used_space == 0,
    {
        StorageInfo { total_space: 0, available_space: 0, used_space: 0 }
    }
}

impl StorageInfo {
    /// Storage figures from the block counts that `statfs` reports: the total
    /// and available space are the block counts times the block size, and the
    /// used space is their difference, or 0 where more is available than
    /// the total.
    pub fn from_block_counts(block_size: u64, blocks: u64, available_blocks: u64) -> (s: Self)
        requires
            blocks * block_size <= u64::MAX,
            available_blocks * block_size <= u64::MAX,
        ensures
            s.total_space == blocks * block_size,
            s.available_space == available_blocks * block_size,
            s.used_space == if s.total_space >= s.available_space {
                s.total_space - s.available_space
            } else {
                0
            },
    {
        let total = blocks * block_size;
        let available = available_blocks * block_size;
        StorageInfo {
            total_space: total,
            available_space: available,
            used_space: total.saturating_sub(available),
        }
    }
}

} // verus!
