//! Directory sizes rolled up from the sizes recorded for their
//! subdirectories.
use vstd::prelude::*;
use crate::models::FileEntry;
use crate::paths::{path_eq, path_parent, same_path, parent_of};
use crate::text::str_eq;

verus! {

/// The recorded sizes, keyed by directory path (no key stands for another).
pub struct DirectorySizeCalculator {
    dir_sizes: Vec<(String, u64)>,
}

/// The view of a list of (path, size) pairs.
pub open spec fn pair_views(v: Seq<(String, u64)>) -> Seq<(Seq<char>, u64)> {
    v.map_values(|p: (String, u64)| (p.0@, p.1))
}

/// The key `k` stands for the directory `d`: the same text, or `==` to it as
/// a path.
pub open spec fn same_key(k: Seq<char>, d: Seq<char>) -> bool {
    k == d || path_eq(k, d)
}

/// The position of the first key that stands for `d`.
pub open spec fn first_match(ds: Seq<(Seq<char>, u64)>, d: Seq<char>) -> Option<int>
    decreases ds.len(),
{
    if ds.len() == 0 {
        None
    } else if same_key(ds[0].0, d) {
        Some(0)
    } else {
        match first_match(ds.drop_first(), d) {
            Some(j) => Some(j + 1),
            None => None,
        }
    }
}

/// The recorded sizes after `size` is added for `d`: to the first key that
/// stands for `d`, or under a new key `d` at the end.
pub open spec fn recorded_after(ds: Seq<(Seq<char>, u64)>, d: Seq<char>, size: u64) -> Seq<(Seq<char>, u64)> {
    match first_match(ds, d) {
        Some(j) => ds.update(j, (ds[j].0, (ds[j].1 + size) as u64)),
        None => ds.push((d, size)),
    }
}

/// The size recorded under the first key that stands for `d`, or 0.
pub open spec fn size_for(ds: Seq<(Seq<char>, u64)>, d: Seq<char>) -> nat {
    match first_match(ds, d) {
        Some(j) => ds[j].1 as nat,
        None => 0,
    }
}

/// The sum of all recorded sizes.
pub open spec fn recorded_total(ds: Seq<(Seq<char>, u64)>) -> nat
    decreases ds.len(),
{
    if ds.len() == 0 {
        0
    } else {
        recorded_total(ds.drop_last()) + ds.last().1 as nat
    }
}

/// The sum of the sizes recorded for the keys whose parent is `==` to `d`.
pub open spec fn child_total(ds: Seq<(Seq<char>, u64)>, d: Seq<char>) -> nat
    decreases ds.len(),
{
    if ds.len() == 0 {
        0
    } else {
        child_total(ds.drop_last(), d) + match path_parent(ds.last().0) {
            Some(p) => if path_eq(p, d) {
                ds.last().1 as nat
            } else {
                0
            },
            None => 0,
        }
    }
}

/// The last directory entry whose path is `==` to `d`, among the first `n`.
pub open spec fn dir_index_upto(es: Seq<FileEntry>, d: Seq<char>, n: nat) -> Option<int>
    decreases n,
{
    if n == 0 {
        None
    } else if es[n - 1].is_dir && path_eq(es[n - 1].path@, d) {
        Some(n - 1)
    } else {
        dir_index_upto(es, d, (n - 1) as nat)
    }
}

/// The last directory entry whose path is `==` to `d`.
pub open spec fn dir_index(es: Seq<FileEntry>, d: Seq<char>) -> Option<int> {
    dir_index_upto(es, d, es.len())
}

/// The entries after the first `j` keys have set their directory's size.
pub open spec fn sized_upto(es: Seq<FileEntry>, ds: Seq<(Seq<char>, u64)>, j: nat) -> Seq<FileEntry>
    decreases j,
{
    if j == 0 {
        es
    } else {
        let prev = sized_upto(es, ds, (j - 1) as nat);
        match dir_index(es, ds[j - 1].0) {
            Some(i) => prev.update(i, FileEntry { size: child_total(ds, ds[j - 1].0) as u64, ..prev[i] }),
            None => prev,
        }
    }
}

proof fn lemma_child_total_bounded(ds: Seq<(Seq<char>, u64)>, d: Seq<char>)
    ensures
        child_total(ds, d) <= recorded_total(ds),
    decreases ds.len(),
{
    if ds.len() > 0 {
        lemma_child_total_bounded(ds.drop_last(), d);
    }
}

proof fn lemma_sized_keeps_shape(es: Seq<FileEntry>, ds: Seq<(Seq<char>, u64)>, j: nat)
    ensures
        sized_upto(es, ds, j).len() == es.len(),
        forall|i: int|
            0 <= i < es.len() ==> (#[trigger] sized_upto(es, ds, j)[i]).path == es[i].path
                && sized_upto(es, ds, j)[i].is_dir == es[i].is_dir,
    decreases j,
{
    if j > 0 {
        lemma_sized_keeps_shape(es, ds, (j - 1) as nat);
        let prev = sized_upto(es, ds, (j - 1) as nat);
        match dir_index(es, ds[j - 1].0) {
            Some(i) => {
                lemma_dir_index_in_range(es, ds[j - 1].0, es.len());
            },
            None => {},
        }
    }
}

proof fn lemma_dir_index_in_range(es: Seq<FileEntry>, d: Seq<char>, n: nat)
    requires
        n <= es.len(),
    ensures
        dir_index_upto(es, d, n) matches Some(i) ==> 0 <= i < n,
    decreases n,
{
    if n > 0 {
        lemma_dir_index_in_range(es, d, (n - 1) as nat);
    }
}

impl DirectorySizeCalculator {
    /// The recorded sizes, by key.
    pub closed spec fn recorded(&self) -> Seq<(Seq<char>, u64)> {
        pair_views(self.dir_sizes@)
    }

    /// No key stands for another: the keys are pairwise distinct, also as paths.
    pub closed spec fn well_formed(&self) -> bool {
        forall|a: int, b: int|
            0 <= a < b < self.dir_sizes@.len() ==> !same_key(self.dir_sizes@[a].0@, self.dir_sizes@[b].0@)
    }

    /// An empty calculator.
    pub fn new() -> (c: Self)
        ensures
            c.well_formed(),
            c.recorded().len() == 0,
    {
        let c = DirectorySizeCalculator { dir_sizes: Vec::new() };
        assert(c.recorded() =~= Seq::<(Seq<char>, u64)>::empty());
        c
    }

    /// Adds `size` to the size recorded for `dir_path`, creating the key
    /// when no key stands for it (the same text, or `==` as a path).
    pub fn record_directory_size(&mut self, dir_path: String, size: u64)
        requires
            old(self).well_formed(),
            size_for(old(self).recorded(), dir_path@) + size <= u64::MAX,
        ensures
            final(self).well_formed(),
            final(self).recorded() == recorded_after(old(self).recorded(), dir_path@, size),
            size_for(final(self).recorded(), dir_path@) == size_for(old(self).recorded(), dir_path@) + size,
            recorded_total(final(self).recorded()) == recorded_total(old(self).recorded()) + size,
    {
        let ghost old_ds = self.recorded();
        proof {
            lemma_size_after_record(old_ds, dir_path@, size);
        }
        let mut j: usize = 0;
        let mut found = false;
        while j < self.dir_sizes.len()
            invariant
                j <= self.dir_sizes@.len(),
                self.dir_sizes@ == old(self).dir_sizes@,
                forall|q: int| 0 <= q < j ==> !same_key(#[trigger] self.dir_sizes@[q].0@, dir_path@),
                found ==> j < self.dir_sizes@.len() && same_key(self.dir_sizes@[j as int].0@, dir_path@),
            ensures
                self.dir_sizes@ == old(self).dir_sizes@,
                found ==> j < self.dir_sizes@.len() && same_key(self.dir_sizes@[j as int].0@, dir_path@),
                !found ==> forall|q: int| 0 <= q < self.dir_sizes@.len() ==> !same_key(#[trigger] self.dir_sizes@[q].0@, dir_path@),
                forall|q: int| 0 <= q < j ==> !same_key(#[trigger] self.dir_sizes@[q].0@, dir_path@),
            decreases self.dir_sizes@.len() - j,
        {
            if str_eq(self.dir_sizes[j].0.as_str(), dir_path.as_str()) || same_path(
                &self.dir_sizes[j].0,
                &dir_path,
            ) {
                found = true;
                break;
            }
            j = j + 1;
        }
        if found {
            proof {
                lemma_first_match_at(old_ds, dir_path@, j as int);
            }
            let key = self.dir_sizes[j].0.clone();
            let v = self.dir_sizes[j].1 + size;
            self.dir_sizes.set(j, (key, v));
            proof {
                let nds = self.recorded();
                assert(nds =~= old_ds.update(j as int, (old_ds[j as int].0, v)));
                lemma_total_update(old_ds, j as int, v);
            }
        } else {
            self.dir_sizes.push((dir_path, size));
            proof {
                let nds = self.recorded();
                assert(nds =~= old_ds.push((dir_path@, size)));
                assert(nds.drop_last() =~= old_ds);
                lemma_first_match_absent(old_ds, dir_path@);
            }
        }
    }

    /// Sets the size of each directory entry to the sum of the sizes recorded
    /// for its immediate subdirectories.  For each key (in order), the last
    /// directory entry `==` to it as a path gets the total of the keys whose
    /// parent is `==` to it.
    pub fn calculate_recursive_sizes(&self, entries: &mut Vec<FileEntry>)
        requires
            recorded_total(self.recorded()) <= u64::MAX,
        ensures
            final(entries)@ == sized_upto(old(entries)@, self.recorded(), self.recorded().len()),
    {
        let ghost es = old(entries)@;
        let ghost ds = self.recorded();
        let mut k: usize = 0;
        while k < self.dir_sizes.len()
            invariant
                k <= self.dir_sizes@.len(),
                ds == self.recorded(),
                ds.len() == self.dir_sizes@.len(),
                recorded_total(ds) <= u64::MAX,
                entries@ == sized_upto(es, ds, k as nat),
            decreases self.dir_sizes@.len() - k,
        {
            proof {
                lemma_sized_keeps_shape(es, ds, k as nat);
            }
            let d = &self.dir_sizes[k].0;
            assert(d@ == ds[k as int].0);
            let total = self.children_total(d);
            let found = last_dir_index(entries, d);
            proof {
                lemma_dir_index_same(es, entries@, d@, es.len());
                lemma_dir_index_in_range(entries@, d@, entries@.len());
            }
            match found {
                Some(idx) => {
                    let mut e = entries[idx].duplicate();
                    e.size = total;
                    entries.set(idx, e);
                },
                None => {},
            }
            k = k + 1;
        }
    }

    /// The sum of the sizes recorded for the keys whose parent is `==` to `d`.
    fn children_total(&self, d: &String) -> (t: u64)
        requires
            recorded_total(self.recorded()) <= u64::MAX,
        ensures
            t == child_total(self.recorded(), d@),
    {
        let ghost ds = self.recorded();
        let mut t: u64 = 0;
        let mut c: usize = 0;
        while c < self.dir_sizes.len()
            invariant
                c <= self.dir_sizes@.len(),
                ds == self.recorded(),
                ds.len() == self.dir_sizes@.len(),
                recorded_total(ds) <= u64::MAX,
                t == child_total(ds.take(c as int), d@),
            decreases self.dir_sizes@.len() - c,
        {
            proof {
                assert(ds.take(c + 1).drop_last() =~= ds.take(c as int));
                lemma_child_total_bounded(ds.take(c + 1), d@);
                lemma_total_prefix(ds, (c + 1) as nat);
            }
            let child = &self.dir_sizes[c];
            match parent_of(&child.0) {
                Some(p) => {
                    if same_path(&p, d) {
                        t = t + child.1;
                    }
                },
                None => {},
            }
            c = c + 1;
        }
        assert(ds.take(ds.len() as int) =~= ds);
        t
    }
}

/// The last directory entry whose path is `==` to `d`.
fn last_dir_index(entries: &Vec<FileEntry>, d: &String) -> (r: Option<usize>)
    ensures
        match r {
            Some(i) => dir_index(entries@, d@) == Some(i as int),
            None => dir_index(entries@, d@) is None,
        },
{
    let mut n: usize = entries.len();
    while n > 0
        invariant
            n <= entries@.len(),
            dir_index(entries@, d@) == dir_index_upto(entries@, d@, n as nat),
        decreases n,
    {
        let e = &entries[n - 1];
        if e.is_dir && same_path(&e.path, d) {
            return Some(n - 1);
        }
        n = n - 1;
    }
    None
}

proof fn lemma_dir_index_same(a: Seq<FileEntry>, b: Seq<FileEntry>, d: Seq<char>, n: nat)
    requires
        a.len() == b.len(),
        n <= a.len(),
        forall|i: int| 0 <= i < a.len() ==> (#[trigger] b[i]).path == a[i].path && b[i].is_dir == a[i].is_dir,
    ensures
        dir_index_upto(b, d, n) == dir_index_upto(a, d, n),
    decreases n,
{
    if n > 0 {
        lemma_dir_index_same(a, b, d, (n - 1) as nat);
        assert(b[n - 1].path == a[n - 1].path);
    }
}

proof fn lemma_total_prefix(ds: Seq<(Seq<char>, u64)>, n: nat)
    requires
        n <= ds.len(),
    ensures
        recorded_total(ds.take(n as int)) <= recorded_total(ds),
    decreases ds.len() - n,
{
    if n < ds.len() {
        lemma_total_prefix(ds, n + 1);
        assert(ds.take(n + 1 as int).drop_last() =~= ds.take(n as int));
    } else {
        assert(ds.take(n as int) =~= ds);
    }
}

proof fn lemma_first_match_range(ds: Seq<(Seq<char>, u64)>, d: Seq<char>)
    ensures
        first_match(ds, d) matches Some(j) ==> 0 <= j < ds.len(),
    decreases ds.len(),
{
    if ds.len() > 0 {
        lemma_first_match_range(ds.drop_first(), d);
    }
}

proof fn lemma_first_match_push(ds: Seq<(Seq<char>, u64)>, x: (Seq<char>, u64), d: Seq<char>)
    ensures
        first_match(ds.push(x), d) == match first_match(ds, d) {
            Some(j) => Some(j),
            None => if same_key(x.0, d) {
                Some(ds.len() as int)
            } else {
                None
            },
        },
    decreases ds.len(),
{
    if ds.len() == 0 {
        assert(ds.push(x).drop_first() =~= ds);
    } else {
        assert(ds.push(x)[0] == ds[0]);
        assert(ds.push(x).drop_first() =~= ds.drop_first().push(x));
        lemma_first_match_push(ds.drop_first(), x, d);
    }
}

proof fn lemma_first_match_update(ds: Seq<(Seq<char>, u64)>, j: int, v: u64, d: Seq<char>)
    requires
        0 <= j < ds.len(),
    ensures
        first_match(ds.update(j, (ds[j].0, v)), d) == first_match(ds, d),
    decreases ds.len(),
{
    let nds = ds.update(j, (ds[j].0, v));
    if j == 0 {
        assert(nds.drop_first() =~= ds.drop_first());
    } else {
        assert(nds[0] == ds[0]);
        assert(nds.drop_first() =~= ds.drop_first().update(j - 1, (ds.drop_first()[j - 1].0, v)));
        lemma_first_match_update(ds.drop_first(), j - 1, v, d);
    }
}

/// After `size` is recorded for `d`, the size recorded for `d` is what it
/// was plus `size`, so a caller can tell whether a further call for `d`
/// still fits.
pub proof fn lemma_size_after_record(ds: Seq<(Seq<char>, u64)>, d: Seq<char>, size: u64)
    requires
        size_for(ds, d) + size <= u64::MAX,
    ensures
        size_for(recorded_after(ds, d, size), d) == size_for(ds, d) + size,
{
    lemma_first_match_range(ds, d);
    match first_match(ds, d) {
        Some(j) => {
            lemma_first_match_update(ds, j, (ds[j].1 + size) as u64, d);
        },
        None => {
            lemma_first_match_push(ds, (d, size), d);
        },
    }
}

/// Sizes recorded for a directory are added, never overwritten: recording
/// `a` and then `b` for `d` leaves the same sizes as recording `a + b` once.
pub proof fn law_recording_twice_adds(ds: Seq<(Seq<char>, u64)>, d: Seq<char>, a: u64, b: u64)
    requires
        size_for(ds, d) + a + b <= u64::MAX,
    ensures
        recorded_after(recorded_after(ds, d, a), d, b) == recorded_after(ds, d, (a + b) as u64),
{
    lemma_first_match_range(ds, d);
    match first_match(ds, d) {
        Some(j) => {
            let ds1 = ds.update(j, (ds[j].0, (ds[j].1 + a) as u64));
            lemma_first_match_update(ds, j, (ds[j].1 + a) as u64, d);
            assert(ds1.update(j, (ds1[j].0, (ds1[j].1 + b) as u64)) =~= ds.update(
                j,
                (ds[j].0, (ds[j].1 + (a + b) as u64) as u64),
            ));
        },
        None => {
            let ds1 = ds.push((d, a));
            lemma_first_match_push(ds, (d, a), d);
            assert(first_match(ds1, d) == Some(ds.len() as int));
            assert(ds1.update(ds.len() as int, (ds1[ds.len() as int].0, (ds1[ds.len() as int].1 + b) as u64))
                =~= ds.push((d, (a + b) as u64)));
        },
    }
}

proof fn lemma_first_match_at(ds: Seq<(Seq<char>, u64)>, d: Seq<char>, j: int)
    requires
        0 <= j < ds.len(),
        same_key(ds[j].0, d),
        forall|q: int| 0 <= q < j ==> !same_key(#[trigger] ds[q].0, d),
    ensures
        first_match(ds, d) == Some(j),
    decreases ds.len(),
{
    if j > 0 {
        assert(!same_key(ds[0].0, d));
        assert forall|q: int| 0 <= q < j - 1 implies !same_key(#[trigger] ds.drop_first()[q].0, d) by {
            assert(ds.drop_first()[q] == ds[q + 1]);
        }
        lemma_first_match_at(ds.drop_first(), d, j - 1);
    }
}

proof fn lemma_first_match_absent(ds: Seq<(Seq<char>, u64)>, d: Seq<char>)
    requires
        forall|q: int| 0 <= q < ds.len() ==> !same_key(#[trigger] ds[q].0, d),
    ensures
        first_match(ds, d) is None,
    decreases ds.len(),
{
    if ds.len() > 0 {
        assert(!same_key(ds[0].0, d));
        assert forall|q: int| 0 <= q < ds.drop_first().len() implies !same_key(#[trigger] ds.drop_first()[q].0, d) by {
            assert(ds.drop_first()[q] == ds[q + 1]);
        }
        lemma_first_match_absent(ds.drop_first(), d);
    }
}

proof fn lemma_total_update(ds: Seq<(Seq<char>, u64)>, j: int, v: u64)
    requires
        0 <= j < ds.len(),
    ensures
        recorded_total(ds.update(j, (ds[j].0, v))) == recorded_total(ds) - ds[j].1 + v,
    decreases ds.len(),
{
    let nds = ds.update(j, (ds[j].0, v));
    if j == ds.len() - 1 {
        assert(nds.drop_last() =~= ds.drop_last());
    } else {
        lemma_total_update(ds.drop_last(), j, v);
        assert(nds.drop_last() =~= ds.drop_last().update(j, (ds[j].0, v)));
    }
}

proof fn lemma_dir_index_is_dir(es: Seq<FileEntry>, d: Seq<char>, n: nat)
    requires
        n <= es.len(),
    ensures
        dir_index_upto(es, d, n) matches Some(i) ==> es[i].is_dir,
    decreases n,
{
    if n > 0 {
        lemma_dir_index_is_dir(es, d, (n - 1) as nat);
    }
}

proof fn lemma_sized_keeps_files(es: Seq<FileEntry>, ds: Seq<(Seq<char>, u64)>, j: nat)
    ensures
        forall|i: int| 0 <= i < es.len() && !es[i].is_dir ==> #[trigger] sized_upto(es, ds, j)[i] == es[i],
    decreases j,
{
    if j > 0 {
        lemma_sized_keeps_files(es, ds, (j - 1) as nat);
        lemma_sized_keeps_shape(es, ds, (j - 1) as nat);
        lemma_dir_index_in_range(es, ds[j - 1].0, es.len());
        lemma_dir_index_is_dir(es, ds[j - 1].0, es.len());
    }
}

/// Rolling up directory sizes changes directories only: every entry that
/// is not a directory keeps its size and everything else about it, and the
/// list keeps its length and order of paths.
pub proof fn law_rollup_leaves_files(es: Seq<FileEntry>, ds: Seq<(Seq<char>, u64)>)
    ensures
        sized_upto(es, ds, ds.len()).len() == es.len(),
        forall|i: int|
            0 <= i < es.len() ==> (#[trigger] sized_upto(es, ds, ds.len())[i]).path == es[i].path,
        forall|i: int|
            0 <= i < es.len() && !es[i].is_dir ==> #[trigger] sized_upto(es, ds, ds.len())[i] == es[i],
{
    lemma_sized_keeps_shape(es, ds, ds.len());
    lemma_sized_keeps_files(es, ds, ds.len());
}

} // verus!
