//! The decisions of a directory walk: which directories to enter, which
//! entries to count and list, and how hard links are counted once.  The
//! reading of directories is done by the caller, which hands each directory
//! entry to `ScanWalk::record_entry`.
use vstd::prelude::*;
use crate::models::FileEntry;
use crate::scanner::skip::{should_skip_path, spec_should_skip, is_different_filesystem};
use crate::scanner::classify::{categorize_path, path_scan_group, is_system_path, spec_is_system_path};
use crate::scanner::utils::{is_hidden_path, spec_is_hidden_path};
use crate::text::{str_eq, seq_starts_with};

verus! {

/// What the caller read about one directory entry.
#[derive(Debug, Clone)]
pub struct RawEntry {
    pub path: String,
    pub name: String,
    pub is_dir: bool,
    pub is_symlink: bool,
    /// Length in bytes.
    pub len: u64,
    /// Inode number.
    pub inode: u64,
    /// Number of hard links.
    pub links: u64,
    /// Last modification, seconds since the Unix epoch.
    pub modified: i64,
    /// Device of the entry (followed through links), if known.
    pub device: Option<u64>,
}

/// Whether a directory is read, and whether its path should be published as
/// the scan's current path.
#[derive(Debug, Clone, Copy, PartialEq, Eq, Structural)]
pub enum DirectoryVerdict {
    Skip,
    Read { publish_path: bool },
}

/// Every this many directories read, the current path is published.
pub const PUBLISH_EVERY: u32 = 50;

/// The sum of the sizes in a list of (group, size) pairs.
pub open spec fn group_total(gs: Seq<(String, u64)>) -> nat
    decreases gs.len(),
{
    if gs.len() == 0 {
        0
    } else {
        group_total(gs.drop_last()) + gs.last().1 as nat
    }
}

/// The size recorded for group `g`, or 0.
pub open spec fn group_size(gs: Seq<(String, u64)>, g: Seq<char>) -> nat
    decreases gs.len(),
{
    if gs.len() == 0 {
        0
    } else if gs.last().0@ == g {
        gs.last().1 as nat
    } else {
        group_size(gs.drop_last(), g)
    }
}

/// The state of a walk.
pub struct ScanWalk {
    pub min_size: u64,
    pub is_full_disk: bool,
    pub root_device: Option<u64>,
    /// Directories found and not yet handed out, from `next` on.
    pub queue: Vec<String>,
    pub next: usize,
    /// Inodes of multiply-linked files already counted.
    pub seen_inodes: Vec<u64>,
    pub files_count: usize,
    pub dirs_count: usize,
    pub total_size: u64,
    pub entries: Vec<FileEntry>,
    /// Bytes counted in each live-scan group.
    pub category_sizes: Vec<(String, u64)>,
    pub skipped_permission: usize,
    pub skipped_virtual: usize,
    pub skipped_different_fs: usize,
    pub hardlink_deduped: usize,
    pub update_counter: u32,
}

/// The entry that a listed item of the walk records.
pub open spec fn listed_entry(raw: RawEntry, size: u64) -> FileEntry {
    FileEntry {
        path: raw.path,
        size: size,
        is_dir: raw.is_dir,
        is_hidden: spec_is_hidden_path(raw.path@),
        is_system: spec_is_system_path(raw.path@),
        modified: raw.modified,
        name: raw.name,
    }
}

/// The live-scan group of the entry `raw`.
pub open spec fn raw_group(raw: RawEntry) -> Seq<char> {
    path_scan_group(raw.path@, spec_is_hidden_path(raw.path@), spec_is_system_path(raw.path@))
}

/// What recording `raw` does to the walk `old_w`, giving `new_w`.  Every
/// field that a case does not name stays as it was.
pub open spec fn record_step(old_w: ScanWalk, new_w: ScanWalk, raw: RawEntry) -> bool {
    &&& new_w.well_formed()
    &&& raw.is_symlink ==> new_w == old_w
    &&& !raw.is_symlink && raw.is_dir ==> {
        &&& new_w == (ScanWalk {
            dirs_count: (old_w.dirs_count + 1) as usize,
            entries: new_w.entries,
            queue: new_w.queue,
            skipped_virtual: new_w.skipped_virtual,
            skipped_different_fs: new_w.skipped_different_fs,
            ..old_w
        })
        &&& new_w.entries@ == old_w.entries@.push(listed_entry(raw, 0))
        &&& if spec_should_skip(raw.path@, old_w.is_full_disk) {
            &&& new_w.queue@ == old_w.queue@
            &&& new_w.skipped_virtual == old_w.skipped_virtual + 1
            &&& new_w.skipped_different_fs == old_w.skipped_different_fs
        } else if old_w.root_device is Some && raw.device is Some && raw.device != old_w.root_device {
            &&& new_w.queue@ == old_w.queue@
            &&& new_w.skipped_virtual == old_w.skipped_virtual
            &&& new_w.skipped_different_fs == old_w.skipped_different_fs + 1
        } else {
            &&& new_w.queue@ == old_w.queue@.push(raw.path)
            &&& new_w.skipped_virtual == old_w.skipped_virtual
            &&& new_w.skipped_different_fs == old_w.skipped_different_fs
        }
    }
    &&& !raw.is_symlink && !raw.is_dir && raw.links > 1 && old_w.seen_inodes@.contains(raw.inode) ==> new_w
        == (ScanWalk { hardlink_deduped: (old_w.hardlink_deduped + 1) as usize, ..old_w })
    &&& !raw.is_symlink && !raw.is_dir && !(raw.links > 1 && old_w.seen_inodes@.contains(raw.inode)) ==> {
        &&& new_w == (ScanWalk {
            files_count: (old_w.files_count + 1) as usize,
            total_size: (old_w.total_size + raw.len) as u64,
            category_sizes: new_w.category_sizes,
            entries: new_w.entries,
            seen_inodes: new_w.seen_inodes,
            ..old_w
        })
        &&& group_size(new_w.category_sizes@, raw_group(raw)) == group_size(old_w.category_sizes@, raw_group(raw))
            + raw.len
        &&& forall|h: Seq<char>|
            h != raw_group(raw) ==> #[trigger] group_size(new_w.category_sizes@, h) == group_size(
                old_w.category_sizes@,
                h,
            )
        &&& new_w.entries@ == if raw.len >= old_w.min_size {
            old_w.entries@.push(listed_entry(raw, raw.len))
        } else {
            old_w.entries@
        }
        &&& (raw.links > 1 ==> new_w.seen_inodes@ == old_w.seen_inodes@.push(raw.inode))
        &&& (raw.links <= 1 ==> new_w.seen_inodes == old_w.seen_inodes)
    }
}

/// A file with several hard links adds its bytes once: once one of its
/// links was recorded, recording another link of the same inode adds no
/// bytes, no file and no entry.
pub proof fn law_hard_link_counted_once(
    w0: ScanWalk,
    w1: ScanWalk,
    w2: ScanWalk,
    first: RawEntry,
    second: RawEntry,
)
    requires
        record_step(w0, w1, first),
        record_step(w1, w2, second),
        !first.is_symlink && !first.is_dir && first.links > 1,
        !second.is_symlink && !second.is_dir && second.links > 1,
        first.inode == second.inode,
    ensures
        w2.total_size == w1.total_size,
        w2.files_count == w1.files_count,
        w2.entries == w1.entries,
{
    if !w0.seen_inodes@.contains(first.inode) {
        assert(w1.seen_inodes@ == w0.seen_inodes@.push(first.inode));
        assert(w1.seen_inodes@[w0.seen_inodes@.len() as int] == first.inode);
    }
    assert(w1.seen_inodes@.contains(second.inode));
}

/// Every entry that the walk lists for `raw` keeps its path and is flagged
/// hidden and system by its path: in particular an entry under `/System`,
/// `/usr`, `/bin` or `/sbin` is listed as a system entry.
pub proof fn law_walk_flags_entries(w0: ScanWalk, w1: ScanWalk, raw: RawEntry)
    requires
        record_step(w0, w1, raw),
        w1.entries@.len() > w0.entries@.len(),
    ensures
        w1.entries@.last().path == raw.path,
        w1.entries@.last().is_system == spec_is_system_path(raw.path@),
        w1.entries@.last().is_hidden == spec_is_hidden_path(raw.path@),
        seq_starts_with(raw.path@, "/System"@) || seq_starts_with(raw.path@, "/usr"@) || seq_starts_with(
            raw.path@,
            "/bin"@,
        ) || seq_starts_with(raw.path@, "/sbin"@) ==> w1.entries@.last().is_system,
{
    crate::scanner::classify::law_system_paths(raw.path@);
}

impl ScanWalk {
    /// The group sizes add up to the total size, and each group appears once;
    /// each listed entry is a directory or a file of at least `min_size`
    /// bytes; and each multiply-linked inode is remembered once, so its bytes
    /// were counted once.
    pub open spec fn well_formed(&self) -> bool {
        &&& group_total(self.category_sizes@) == self.total_size
        &&& forall|a: int, b: int|
            0 <= a < b < self.category_sizes@.len() ==> self.category_sizes@[a].0@ != self.category_sizes@[b].0@
        &&& self.next <= self.queue@.len()
        &&& forall|k: int|
            0 <= k < self.entries@.len() ==> (#[trigger] self.entries@[k]).is_dir || self.entries@[k].size
                >= self.min_size
        &&& forall|a: int, b: int|
            0 <= a < b < self.seen_inodes@.len() ==> self.seen_inodes@[a] != self.seen_inodes@[b]
    }

    /// A walk that starts at `root`.
    pub fn new(root: String, min_size: u64, is_full_disk: bool, root_device: Option<u64>) -> (w: Self)
        ensures
            w.well_formed(),
            w.queue@.len() == 1,
            w.queue@[0] == root,
            w.next == 0,
            w.min_size == min_size,
            w.is_full_disk == is_full_disk,
            w.root_device == root_device,
            w.seen_inodes@.len() == 0,
            w.files_count == 0,
            w.dirs_count == 0,
            w.total_size == 0,
            w.entries@.len() == 0,
            w.category_sizes@.len() == 0,
            w.skipped_permission == 0,
            w.skipped_virtual == 0,
            w.skipped_different_fs == 0,
            w.hardlink_deduped == 0,
            w.update_counter == 0,
    {
        let mut queue: Vec<String> = Vec::new();
        queue.push(root);
        ScanWalk {
            min_size,
            is_full_disk,
            root_device,
            queue,
            next: 0,
            seen_inodes: Vec::new(),
            files_count: 0,
            dirs_count: 0,
            total_size: 0,
            entries: Vec::new(),
            category_sizes: Vec::new(),
            skipped_permission: 0,
            skipped_virtual: 0,
            skipped_different_fs: 0,
            hardlink_deduped: 0,
            update_counter: 0,
        }
    }

    /// The next directory to read, first found first.
    pub fn next_directory(&mut self) -> (d: Option<String>)
        requires
            old(self).well_formed(),
        ensures
            final(self).well_formed(),
            old(self).next < old(self).queue@.len() ==> d == Some(old(self).queue@[old(self).next as int])
                && final(self).next == old(self).next + 1,
            old(self).next >= old(self).queue@.len() ==> d is None && final(self).next == old(self).next,
            *final(self) == (ScanWalk { next: final(self).next, ..*old(self) }),
    {
        if self.next < self.queue.len() {
            let d = self.queue[self.next].clone();
            self.next = self.next + 1;
            Some(d)
        } else {
            None
        }
    }

    /// Whether to read the directory `dir_path` (on device `dir_device`):
    /// skipped under virtual or duplicated trees and on other filesystems;
    /// otherwise read, publishing its path every 50th directory.
    pub fn enter_directory(&mut self, dir_path: &str, dir_device: Option<u64>) -> (v: DirectoryVerdict)
        requires
            old(self).skipped_virtual < usize::MAX,
            old(self).skipped_different_fs < usize::MAX,
            old(self).update_counter < u32::MAX,
        ensures
            if spec_should_skip(dir_path@, old(self).is_full_disk) {
                &&& v == DirectoryVerdict::Skip
                &&& *final(self) == (ScanWalk {
                    skipped_virtual: (old(self).skipped_virtual + 1) as usize,
                    ..*old(self)
                })
            } else if old(self).root_device is Some && dir_device is Some && dir_device != old(self).root_device {
                &&& v == DirectoryVerdict::Skip
                &&& *final(self) == (ScanWalk {
                    skipped_different_fs: (old(self).skipped_different_fs + 1) as usize,
                    ..*old(self)
                })
            } else {
                &&& *final(self) == (ScanWalk {
                    update_counter: (old(self).update_counter + 1) as u32,
                    ..*old(self)
                })
                &&& v == DirectoryVerdict::Read {
                    publish_path: final(self).update_counter % PUBLISH_EVERY == 0,
                }
            },
    {
        if should_skip_path(dir_path, self.is_full_disk) {
            self.skipped_virtual = self.skipped_virtual + 1;
            return DirectoryVerdict::Skip;
        }
        if is_different_filesystem(dir_device, self.root_device) {
            self.skipped_different_fs = self.skipped_different_fs + 1;
            return DirectoryVerdict::Skip;
        }
        self.update_counter = self.update_counter + 1;
        DirectoryVerdict::Read { publish_path: self.update_counter % PUBLISH_EVERY == 0 }
    }

    /// Notes a directory that could not be read.
    pub fn directory_unreadable(&mut self)
        requires
            old(self).skipped_permission < usize::MAX,
        ensures
            *final(self) == (ScanWalk {
                skipped_permission: (old(self).skipped_permission + 1) as usize,
                ..*old(self)
            }),
    {
        self.skipped_permission = self.skipped_permission + 1;
    }

    /// Whether the inode has been counted already.
    fn inode_seen(&self, inode: u64) -> (b: bool)
        ensures
            b == self.seen_inodes@.contains(inode),
    {
        let mut i: usize = 0;
        while i < self.seen_inodes.len()
            invariant
                i <= self.seen_inodes@.len(),
                forall|j: int| 0 <= j < i ==> self.seen_inodes@[j] != inode,
            decreases self.seen_inodes@.len() - i,
        {
            if self.seen_inodes[i] == inode {
                return true;
            }
            i = i + 1;
        }
        false
    }

    /// Adds `size` bytes to the group labelled `g`.
    fn add_to_group(&mut self, g: &str, size: u64)
        requires
            old(self).well_formed(),
            old(self).total_size + size <= u64::MAX,
        ensures
            final(self).well_formed(),
            final(self).total_size == old(self).total_size + size,
            group_size(final(self).category_sizes@, g@) == group_size(old(self).category_sizes@, g@) + size,
            forall|h: Seq<char>| h != g@ ==> group_size(final(self).category_sizes@, h) == group_size(
                old(self).category_sizes@,
                h,
            ),
            *final(self) == (ScanWalk {
                total_size: final(self).total_size,
                category_sizes: final(self).category_sizes,
                ..*old(self)
            }),
    {
        let ghost gs = self.category_sizes@;
        let mut i: usize = 0;
        while i < self.category_sizes.len()
            invariant
                i <= self.category_sizes@.len(),
                self.category_sizes@ == gs,
                forall|j: int| 0 <= j < i ==> gs[j].0@ != g@,
            ensures
                i <= self.category_sizes@.len(),
                self.category_sizes@ == gs,
                forall|j: int| 0 <= j < i ==> gs[j].0@ != g@,
                i < self.category_sizes@.len() ==> gs[i as int].0@ == g@,
            decreases self.category_sizes@.len() - i,
        {
            if str_eq(self.category_sizes[i].0.as_str(), g) {
                break;
            }
            i = i + 1;
        }
        proof {
            lemma_group_bounded(gs);
        }
        if i < self.category_sizes.len() {
            proof {
                lemma_group_in_total(gs, i as int);
            }
            let label = self.category_sizes[i].0.clone();
            let v = self.category_sizes[i].1 + size;
            self.category_sizes.set(i, (label, v));
            proof {
                lemma_group_update(gs, i as int, v, g@);
            }
        } else {
            self.category_sizes.push((String::from_str(g), size));
            proof {
                let ngs = self.category_sizes@;
                assert(ngs.drop_last() =~= gs);
                lemma_group_absent(gs, g@);
            }
        }
        self.total_size = self.total_size + size;
    }

    /// Handles one entry of a directory being read.  Symbolic links are
    /// ignored.  A file with several hard links counts only the first time its
    /// inode is seen.  Directories are counted and queued unless skipped;
    /// files are counted in the totals and their group.  Directories, and
    /// counted files of at least `min_size` bytes, are listed.
    pub fn record_entry(&mut self, raw: RawEntry)
        requires
            old(self).well_formed(),
            old(self).total_size + raw.len <= u64::MAX,
            old(self).files_count < usize::MAX,
            old(self).dirs_count < usize::MAX,
            old(self).skipped_virtual < usize::MAX,
            old(self).skipped_different_fs < usize::MAX,
            old(self).hardlink_deduped < usize::MAX,
        ensures
            record_step(*old(self), *final(self), raw),
    {
        if raw.is_symlink {
            return;
        }
        if raw.is_dir {
            self.dirs_count = self.dirs_count + 1;
            if should_skip_path(raw.path.as_str(), self.is_full_disk) {
                self.skipped_virtual = self.skipped_virtual + 1;
            } else if is_different_filesystem(raw.device, self.root_device) {
                self.skipped_different_fs = self.skipped_different_fs + 1;
            } else {
                self.queue.push(raw.path.clone());
            }
            let is_hidden = is_hidden_path(raw.path.as_str());
            let is_system = is_system_path(raw.path.as_str());
            self.entries.push(FileEntry {
                path: raw.path,
                size: 0,
                is_dir: true,
                is_hidden,
                is_system,
                modified: raw.modified,
                name: raw.name,
            });
            return;
        }
        if raw.links > 1 {
            if self.inode_seen(raw.inode) {
                self.hardlink_deduped = self.hardlink_deduped + 1;
                return;
            }
            self.seen_inodes.push(raw.inode);
        }
        let size = raw.len;
        self.files_count = self.files_count + 1;
        let is_hidden = is_hidden_path(raw.path.as_str());
        let is_system = is_system_path(raw.path.as_str());
        let group = categorize_path(raw.path.as_str(), is_hidden, is_system);
        self.add_to_group(group, size);
        if size >= self.min_size {
            self.entries.push(FileEntry {
                path: raw.path,
                size,
                is_dir: false,
                is_hidden,
                is_system,
                modified: raw.modified,
                name: raw.name,
            });
        }
    }
}

proof fn lemma_group_bounded(gs: Seq<(String, u64)>)
    ensures
        forall|j: int| 0 <= j < gs.len() ==> gs[j].1 <= group_total(gs),
    decreases gs.len(),
{
    if gs.len() > 0 {
        lemma_group_bounded(gs.drop_last());
        assert forall|j: int| 0 <= j < gs.len() implies gs[j].1 <= group_total(gs) by {
            if j < gs.len() - 1 {
                assert(gs.drop_last()[j] == gs[j]);
            }
        }
    }
}

proof fn lemma_group_in_total(gs: Seq<(String, u64)>, i: int)
    requires
        0 <= i < gs.len(),
    ensures
        gs[i].1 <= group_total(gs),
{
    lemma_group_bounded(gs);
}

proof fn lemma_group_update(gs: Seq<(String, u64)>, i: int, v: u64, g: Seq<char>)
    requires
        0 <= i < gs.len(),
        gs[i].0@ == g,
        v >= gs[i].1,
        forall|a: int, b: int| 0 <= a < b < gs.len() ==> gs[a].0@ != gs[b].0@,
    ensures
        group_total(gs.update(i, (gs[i].0, v))) == group_total(gs) - gs[i].1 + v,
        group_size(gs.update(i, (gs[i].0, v)), g) == v,
        group_size(gs, g) == gs[i].1,
        forall|h: Seq<char>| h != g ==> group_size(gs.update(i, (gs[i].0, v)), h) == group_size(gs, h),
    decreases gs.len(),
{
    let ngs = gs.update(i, (gs[i].0, v));
    if i == gs.len() - 1 {
        assert(ngs.drop_last() =~= gs.drop_last());
        assert(ngs.last().0@ == g);
        assert forall|h: Seq<char>| h != g implies group_size(ngs, h) == group_size(gs, h) by {
            assert(group_size(ngs, h) == group_size(ngs.drop_last(), h));
            assert(group_size(gs, h) == group_size(gs.drop_last(), h));
        }
        assert forall|a: int| 0 <= a < gs.drop_last().len() implies gs.drop_last()[a].0@ != g by {
            assert(gs[a].0@ != gs[i].0@);
        }
        lemma_group_absent(gs.drop_last(), g);
    } else {
        assert(ngs.drop_last() =~= gs.drop_last().update(i, (gs[i].0, v)));
        assert(gs.last().0@ != g) by {
            assert(gs[i].0@ != gs[gs.len() - 1].0@);
        }
        lemma_group_update(gs.drop_last(), i, v, g);
        assert(ngs.last() == gs.last());
        assert forall|h: Seq<char>| h != g implies group_size(ngs, h) == group_size(gs, h) by {
            if gs.last().0@ != h {
                assert(group_size(ngs, h) == group_size(ngs.drop_last(), h));
                assert(group_size(gs, h) == group_size(gs.drop_last(), h));
                assert(group_size(gs.drop_last().update(i, (gs[i].0, v)), h) == group_size(gs.drop_last(), h));
            } else {
                assert(ngs.last().0@ == h);
                assert(group_size(ngs, h) == ngs.last().1);
                assert(group_size(gs, h) == gs.last().1);
            }
        }
    }
}

proof fn lemma_group_absent(gs: Seq<(String, u64)>, g: Seq<char>)
    ensures
        (forall|j: int| 0 <= j < gs.len() ==> gs[j].0@ != g) ==> group_size(gs, g) == 0,
    decreases gs.len(),
{
    if gs.len() > 0 {
        lemma_group_absent(gs.drop_last(), g);
        if forall|j: int| 0 <= j < gs.len() ==> gs[j].0@ != g {
            assert forall|j: int| 0 <= j < gs.drop_last().len() implies gs.drop_last()[j].0@ != g by {
                assert(gs.drop_last()[j] == gs[j]);
            }
        }
    }
}

} // verus!
