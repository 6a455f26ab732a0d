//! Whole-scan analysis: categories for every entry, grouping, the space that
//! safe categories hold, and the directories that hold the most.
use vstd::prelude::*;
use crate::analyzer::category::{FileCategory, CATEGORY_COUNT, all_categories, lemma_rank_inverse};
use crate::analyzer::rules::{ClassificationRules, category_in, entry_pattern_category, has_namesake};
use crate::models::FileEntry;
use crate::clock::unix_now;
use crate::paths::{path_parent, parent_of};
use crate::sorting::{IntKey, stable_order, is_order_of, follows_keys};

verus! {

/// The sum of the sizes of the entries.
pub open spec fn size_sum(es: Seq<FileEntry>) -> nat
    decreases es.len(),
{
    if es.len() == 0 {
        0
    } else {
        size_sum(es.drop_last()) + es.last().size as nat
    }
}

/// The categories of all the entries among themselves at time `now`.
pub open spec fn categories_of(es: Seq<FileEntry>, now: i64) -> Seq<FileCategory> {
    Seq::new(es.len(), |i: int| category_in(es[i], es, now))
}

/// The first `n` entries whose category in `cs` is `c`, in order.
pub open spec fn members_upto(es: Seq<FileEntry>, cs: Seq<FileCategory>, c: FileCategory, n: nat) -> Seq<FileEntry>
    decreases n,
{
    if n == 0 {
        seq![]
    } else if cs[n - 1] == c {
        members_upto(es, cs, c, (n - 1) as nat).push(es[n - 1])
    } else {
        members_upto(es, cs, c, (n - 1) as nat)
    }
}

/// The entries whose category in `cs` is `c`, in order.
pub open spec fn members(es: Seq<FileEntry>, cs: Seq<FileCategory>, c: FileCategory) -> Seq<FileEntry> {
    members_upto(es, cs, c, es.len())
}

/// The non-empty groups among the first `k` categories, in category order.
pub open spec fn groups_upto(es: Seq<FileEntry>, cs: Seq<FileCategory>, k: nat) -> Seq<(FileCategory, Seq<FileEntry>)>
    decreases k,
{
    if k == 0 {
        seq![]
    } else {
        let c = FileCategory::at_rank((k - 1) as nat);
        let m = members(es, cs, c);
        if m.len() > 0 {
            groups_upto(es, cs, (k - 1) as nat).push((c, m))
        } else {
            groups_upto(es, cs, (k - 1) as nat)
        }
    }
}

/// The non-empty groups of entries by category, in category order.
pub open spec fn groups_of(es: Seq<FileEntry>, cs: Seq<FileCategory>) -> Seq<(FileCategory, Seq<FileEntry>)> {
    groups_upto(es, cs, CATEGORY_COUNT as nat)
}

/// The total size of the first `n` entries whose category in `cs` is safe to
/// delete.
pub open spec fn safe_sum_upto(es: Seq<FileEntry>, cs: Seq<FileCategory>, n: nat) -> nat
    decreases n,
{
    if n == 0 {
        0
    } else if cs[n - 1].safe() {
        safe_sum_upto(es, cs, (n - 1) as nat) + es[n - 1].size as nat
    } else {
        safe_sum_upto(es, cs, (n - 1) as nat)
    }
}

/// The total size of the entries whose category in `cs` is safe to delete.
pub open spec fn safe_sum(es: Seq<FileEntry>, cs: Seq<FileCategory>) -> nat {
    safe_sum_upto(es, cs, es.len())
}

/// `r` pairs each entry with its category among all of them at time `now`.
pub open spec fn pairs_categorized(r: Seq<(FileEntry, FileCategory)>, es: Seq<FileEntry>, now: i64) -> bool {
    r.len() == es.len() && forall|i: int|
        0 <= i < r.len() ==> #[trigger] r[i] == (es[i], category_in(es[i], es, now))
}

/// One category and the entries in it.
#[derive(Debug, Clone)]
pub struct CategoryGroup {
    pub category: FileCategory,
    pub entries: Vec<FileEntry>,
}

/// The groups match the spec groups.
pub open spec fn groups_match(r: Seq<CategoryGroup>, g: Seq<(FileCategory, Seq<FileEntry>)>) -> bool {
    r.len() == g.len() && forall|i: int|
        0 <= i < r.len() ==> (#[trigger] r[i]).category == g[i].0 && r[i].entries@ == g[i].1
}

pub proof fn lemma_safe_sum_bounded(es: Seq<FileEntry>, cs: Seq<FileCategory>, n: nat)
    requires
        n <= es.len(),
    ensures
        safe_sum_upto(es, cs, n) <= size_sum(es.take(n as int)),
    decreases n,
{
    if n > 0 {
        lemma_safe_sum_bounded(es, cs, (n - 1) as nat);
        assert(es.take(n as int).drop_last() =~= es.take(n - 1));
    }
}

/// Turns the sum over a prefix into the sum over the whole.
pub proof fn lemma_take_all(es: Seq<FileEntry>)
    ensures
        es.take(es.len() as int) == es,
{
    assert(es.take(es.len() as int) =~= es);
}

/// The directory whose size an entry adds to: the parent of a file, nothing
/// for a directory.
pub open spec fn parent_key(e: FileEntry) -> Option<Seq<char>> {
    if e.is_dir {
        None
    } else {
        path_parent(e.path@)
    }
}

/// The total size of the files among the first `n` entries whose parent is
/// `k`.
pub open spec fn dir_total_upto(es: Seq<FileEntry>, k: Seq<char>, n: nat) -> nat
    decreases n,
{
    if n == 0 {
        0
    } else if parent_key(es[n - 1]) == Some(k) {
        dir_total_upto(es, k, (n - 1) as nat) + es[n - 1].size as nat
    } else {
        dir_total_upto(es, k, (n - 1) as nat)
    }
}

/// The total size of the files directly in directory `k`.
pub open spec fn dir_total(es: Seq<FileEntry>, k: Seq<char>) -> nat {
    dir_total_upto(es, k, es.len())
}

/// The parents of the files among the first `n` entries, each once, in order
/// of first appearance.
pub open spec fn parents_upto(es: Seq<FileEntry>, n: nat) -> Seq<Seq<char>>
    decreases n,
{
    if n == 0 {
        seq![]
    } else {
        let p = parents_upto(es, (n - 1) as nat);
        match parent_key(es[n - 1]) {
            Some(k) => if p.contains(k) {
                p
            } else {
                p.push(k)
            },
            None => p,
        }
    }
}

/// The parents of the files, each once, in order of first appearance.
pub open spec fn directory_keys(es: Seq<FileEntry>) -> Seq<Seq<char>> {
    parents_upto(es, es.len())
}

/// The totals of the directories of `directory_keys`, as sort keys.
pub open spec fn directory_totals(es: Seq<FileEntry>) -> Seq<IntKey> {
    directory_keys(es).map_values(|k: Seq<char>| IntKey(dir_total(es, k) as i128))
}

/// The most directories that `find_large_directories` reports.
pub const TOP_DIRECTORIES: usize = 20;

/// `r` lists the directories of `directory_keys` with their totals, largest
/// total first (ties in order of first appearance), at most 20 of them.
pub open spec fn is_top_directories(r: Seq<(String, u64)>, es: Seq<FileEntry>) -> bool {
    let d = directory_keys(es);
    exists|order: Seq<usize>|
        #[trigger] is_order_of(order, d.len()) && follows_keys(order, directory_totals(es), true)
            && r.len() == (if d.len() < TOP_DIRECTORIES { d.len() } else { TOP_DIRECTORIES as nat })
            && forall|i: int|
            0 <= i < r.len() ==> (#[trigger] r[i]).0@ == d[order[i] as int] && r[i].1 == dir_total(
                es,
                d[order[i] as int],
            )
}

proof fn lemma_dir_total_bounded(es: Seq<FileEntry>, k: Seq<char>, n: nat)
    requires
        n <= es.len(),
    ensures
        dir_total_upto(es, k, n) <= size_sum(es.take(n as int)),
    decreases n,
{
    if n > 0 {
        lemma_dir_total_bounded(es, k, (n - 1) as nat);
        assert(es.take(n as int).drop_last() =~= es.take(n - 1));
    }
}

proof fn lemma_absent_parent_total(es: Seq<FileEntry>, k: Seq<char>, n: nat)
    requires
        n <= es.len(),
        !parents_upto(es, n).contains(k),
    ensures
        dir_total_upto(es, k, n) == 0,
    decreases n,
{
    if n > 0 {
        let p = parents_upto(es, (n - 1) as nat);
        if parent_key(es[n - 1]) == Some(k) {
            if !p.contains(k) {
                assert(parents_upto(es, n).last() == k);
                assert(parents_upto(es, n).contains(k));
            }
        }
        assert forall|j: int| 0 <= j < p.len() implies p[j] != k by {
            assert(parents_upto(es, n)[j] == p[j]);
        }
        lemma_absent_parent_total(es, k, (n - 1) as nat);
    }
}

proof fn lemma_parents_distinct(es: Seq<FileEntry>, n: nat)
    requires
        n <= es.len(),
    ensures
        forall|a: int, b: int|
            0 <= a < b < parents_upto(es, n).len() ==> parents_upto(es, n)[a] != parents_upto(es, n)[b],
    decreases n,
{
    if n > 0 {
        lemma_parents_distinct(es, (n - 1) as nat);
        let p = parents_upto(es, (n - 1) as nat);
        match parent_key(es[n - 1]) {
            Some(k) => {
                if !p.contains(k) {
                    assert forall|a: int| 0 <= a < p.len() implies p[a] != k by {
                        if p[a] == k {
                            assert(p.contains(k));
                        }
                    }
                }
            },
            None => {},
        }
    }
}

/// Analysis over a whole scan.
pub struct Analyzer;

impl Analyzer {
    /// The category of `entry` on its own (no duplicate-name context) at time
    /// `now`.
    pub fn categorize_file_at(entry: &FileEntry, now: i64) -> (c: FileCategory)
        ensures
            c == category_in(*entry, seq![], now),
    {
        let none: Vec<FileEntry> = Vec::new();
        let c = ClassificationRules::classify_at(entry, none.as_slice(), now);
        assert(none@ =~= Seq::<FileEntry>::empty());
        c
    }

    /// The category of `entry` on its own (no duplicate-name context), judged
    /// now.
    pub fn categorize_file(entry: &FileEntry) -> (c: FileCategory)
        ensures
            exists|now: i64| c == category_in(*entry, seq![], now),
    {
        let now = unix_now();
        Self::categorize_file_at(entry, now)
    }

    /// The category of `entry` among `all_entries` at time `now`.
    pub fn categorize_file_with_context_at(entry: &FileEntry, all_entries: &[FileEntry], now: i64) -> (c:
        FileCategory)
        ensures
            c == category_in(*entry, all_entries@, now),
    {
        ClassificationRules::classify_at(entry, all_entries, now)
    }

    /// The category of `entry` among `all_entries`, judged now.
    pub fn categorize_file_with_context(entry: &FileEntry, all_entries: &[FileEntry]) -> (c: FileCategory)
        ensures
            exists|now: i64| c == category_in(*entry, all_entries@, now),
    {
        let now = unix_now();
        Self::categorize_file_with_context_at(entry, all_entries, now)
    }

    /// The categories of all the entries among themselves at time `now`.
    pub fn categories_at(entries: &[FileEntry], now: i64) -> (cs: Vec<FileCategory>)
        ensures
            cs@ == categories_of(entries@, now),
    {
        let mut cs: Vec<FileCategory> = Vec::new();
        let mut i: usize = 0;
        while i < entries.len()
            invariant
                i <= entries@.len(),
                cs@ == categories_of(entries@, now).take(i as int),
            decreases entries@.len() - i,
        {
            let c = ClassificationRules::classify_at(&entries[i], entries, now);
            cs.push(c);
            assert(cs@ =~= categories_of(entries@, now).take(i + 1));
            i = i + 1;
        }
        assert(cs@ =~= categories_of(entries@, now));
        cs
    }

    /// Each entry paired with its category among all the entries at time
    /// `now`.
    pub fn categorize_all_at(entries: Vec<FileEntry>, now: i64) -> (r: Vec<(FileEntry, FileCategory)>)
        ensures
            pairs_categorized(r@, entries@, now),
    {
        let cs = Self::categories_at(entries.as_slice(), now);
        let mut r: Vec<(FileEntry, FileCategory)> = Vec::new();
        let mut i: usize = 0;
        while i < entries.len()
            invariant
                i <= entries@.len(),
                cs@ == categories_of(entries@, now),
                r@.len() == i,
                forall|j: int|
                    0 <= j < i ==> #[trigger] r@[j] == (entries@[j], category_in(entries@[j], entries@, now)),
            decreases entries@.len() - i,
        {
            r.push((entries[i].duplicate(), cs[i]));
            i = i + 1;
        }
        r
    }

    /// Each entry paired with its category among all the entries, judged
    /// now.
    pub fn categorize_all(entries: Vec<FileEntry>) -> (r: Vec<(FileEntry, FileCategory)>)
        ensures
            exists|now: i64| pairs_categorized(r@, entries@, now),
    {
        let now = unix_now();
        Self::categorize_all_at(entries, now)
    }

    /// The entries in category order, one group for each category that
    /// occurs, for the categories `cs`.
    pub fn group_by_categories(entries: &[FileEntry], cs: &Vec<FileCategory>) -> (r: Vec<CategoryGroup>)
        requires
            cs@.len() == entries@.len(),
        ensures
            groups_match(r@, groups_of(entries@, cs@)),
    {
        let all = all_categories();
        let mut r: Vec<CategoryGroup> = Vec::new();
        let mut k: usize = 0;
        while k < CATEGORY_COUNT
            invariant
                k <= CATEGORY_COUNT,
                cs@.len() == entries@.len(),
                all@.len() == CATEGORY_COUNT,
                forall|i: int| 0 <= i < CATEGORY_COUNT ==> #[trigger] all@[i] == FileCategory::at_rank(i as nat),
                groups_match(r@, groups_upto(entries@, cs@, k as nat)),
            decreases CATEGORY_COUNT - k,
        {
            let c = all[k];
            let mut bucket: Vec<FileEntry> = Vec::new();
            let mut i: usize = 0;
            while i < entries.len()
                invariant
                    i <= entries@.len(),
                    cs@.len() == entries@.len(),
                    bucket@ == members_upto(entries@, cs@, c, i as nat),
                decreases entries@.len() - i,
            {
                if cs[i] == c {
                    bucket.push(entries[i].duplicate());
                }
                i = i + 1;
            }
            if bucket.len() > 0 {
                r.push(CategoryGroup { category: c, entries: bucket });
            }
            k = k + 1;
        }
        r
    }

    /// The entries grouped by their category among all the entries at time
    /// `now`, in category order, one group for each category that occurs.
    pub fn group_by_category_at(entries: &[FileEntry], now: i64) -> (r: Vec<CategoryGroup>)
        ensures
            groups_match(r@, groups_of(entries@, categories_of(entries@, now))),
    {
        let cs = Self::categories_at(entries, now);
        Self::group_by_categories(entries, &cs)
    }

    /// The entries grouped by their category among all the entries, judged
    /// now, in category order, one group for each category that occurs.
    pub fn group_by_category(entries: &[FileEntry]) -> (r: Vec<CategoryGroup>)
        ensures
            exists|now: i64| groups_match(r@, groups_of(entries@, categories_of(entries@, now))),
    {
        let now = unix_now();
        Self::group_by_category_at(entries, now)
    }

    /// The total size of the entries whose category in `cs` is safe to
    /// delete.
    pub fn safe_savings_of(entries: &[FileEntry], cs: &Vec<FileCategory>) -> (total: u64)
        requires
            cs@.len() == entries@.len(),
            size_sum(entries@) <= u64::MAX,
        ensures
            total == safe_sum(entries@, cs@),
    {
        let mut total: u64 = 0;
        let mut i: usize = 0;
        while i < entries.len()
            invariant
                i <= entries@.len(),
                cs@.len() == entries@.len(),
                size_sum(entries@) <= u64::MAX,
                total == safe_sum_upto(entries@, cs@, i as nat),
            decreases entries@.len() - i,
        {
            proof {
                lemma_safe_sum_bounded(entries@, cs@, (i + 1) as nat);
                lemma_size_sum_prefix(entries@, (i + 1) as nat);
            }
            if cs[i].is_safe_to_delete() {
                total = total + entries[i].size;
            }
            i = i + 1;
        }
        total
    }

    /// The space that deleting every entry of a safe-to-delete category (by
    /// the categories at time `now`) would free.
    pub fn calculate_safe_savings_at(entries: &[FileEntry], now: i64) -> (total: u64)
        requires
            size_sum(entries@) <= u64::MAX,
        ensures
            total == safe_sum(entries@, categories_of(entries@, now)),
    {
        let cs = Self::categories_at(entries, now);
        Self::safe_savings_of(entries, &cs)
    }

    /// The space that deleting every entry of a safe-to-delete category
    /// would free, judged now.
    pub fn calculate_safe_savings(entries: &[FileEntry]) -> (total: u64)
        requires
            size_sum(entries@) <= u64::MAX,
        ensures
            exists|now: i64| total == safe_sum(entries@, categories_of(entries@, now)),
    {
        let now = unix_now();
        Self::calculate_safe_savings_at(entries, now)
    }
}

impl Analyzer {
    /// The directories that directly hold the most bytes of files: each
    /// parent directory of a file with the total size of its files, largest
    /// first (ties in order of first appearance), at most 20.
    pub fn find_large_directories(entries: &[FileEntry]) -> (r: Vec<(String, u64)>)
        requires
            size_sum(entries@) <= u64::MAX,
        ensures
            is_top_directories(r@, entries@),
    {
        let ghost es = entries@;
        let mut keys: Vec<String> = Vec::new();
        let mut totals: Vec<u64> = Vec::new();
        let mut i: usize = 0;
        while i < entries.len()
            invariant
                es == entries@,
                i <= es.len(),
                size_sum(es) <= u64::MAX,
                keys@.len() == totals@.len(),
                keys@.len() == parents_upto(es, i as nat).len(),
                forall|j: int| 0 <= j < keys@.len() ==> (#[trigger] keys@[j])@ == parents_upto(es, i as nat)[j],
                forall|j: int|
                    0 <= j < totals@.len() ==> #[trigger] totals@[j] == dir_total_upto(
                        es,
                        parents_upto(es, i as nat)[j],
                        i as nat,
                    ),
            decreases es.len() - i,
        {
            let ghost before = parents_upto(es, i as nat);
            proof {
                lemma_parents_distinct(es, i as nat);
                lemma_size_sum_prefix(es, (i + 1) as nat);
            }
            let e = &entries[i];
            if !e.is_dir {
                let parent = parent_of(&e.path);
                match parent {
                    Some(k) => {
                        let mut j: usize = 0;
                        let mut found = false;
                        while j < keys.len()
                            invariant
                                j <= keys@.len(),
                                keys@.len() == before.len(),
                                forall|q: int| 0 <= q < keys@.len() ==> (#[trigger] keys@[q])@ == before[q],
                                forall|q: int| 0 <= q < j ==> before[q] != k@,
                                found ==> j < keys@.len() && before[j as int] == k@,
                            ensures
                                found ==> j < keys@.len() && before[j as int] == k@,
                                !found ==> forall|q: int| 0 <= q < keys@.len() ==> before[q] != k@,
                            decreases keys@.len() - j,
                        {
                            if keys[j] == k {
                                found = true;
                                break;
                            }
                            j = j + 1;
                        }
                        if found {
                            proof {
                                lemma_dir_total_bounded(es, k@, (i + 1) as nat);
                                assert(parents_upto(es, (i + 1) as nat) == before);
                            }
                            let t = totals[j] + e.size;
                            totals.set(j, t);
                            proof {
                                assert forall|q: int| 0 <= q < totals@.len() implies #[trigger] totals@[q]
                                    == dir_total_upto(es, parents_upto(es, (i + 1) as nat)[q], (i + 1) as nat) by {
                                    if q != j {
                                        assert(before[q] != before[j as int]);
                                    }
                                }
                            }
                        } else {
                            proof {
                                assert(!before.contains(k@)) by {
                                    if before.contains(k@) {
                                        let w = choose|w: int| 0 <= w < before.len() && before[w] == k@;
                                        assert(before[w] != k@);
                                    }
                                }
                                lemma_absent_parent_total(es, k@, i as nat);
                                assert(parents_upto(es, (i + 1) as nat) == before.push(k@));
                            }
                            keys.push(k);
                            totals.push(e.size);
                        }
                    },
                    None => {
                        assert(parents_upto(es, (i + 1) as nat) == before);
                    },
                }
            } else {
                assert(parents_upto(es, (i + 1) as nat) == before);
            }
            i = i + 1;
        }
        let ghost d = directory_keys(es);
        let mut sort_keys: Vec<IntKey> = Vec::new();
        let mut q: usize = 0;
        while q < totals.len()
            invariant
                q <= totals@.len(),
                totals@.len() == d.len(),
                sort_keys@.len() == q,
                forall|j: int| 0 <= j < q ==> #[trigger] sort_keys@[j] == IntKey(totals@[j] as i128),
            decreases totals@.len() - q,
        {
            sort_keys.push(IntKey(totals[q] as i128));
            q = q + 1;
        }
        proof {
            assert forall|j: int| 0 <= j < d.len() implies sort_keys@[j] == #[trigger] directory_totals(es)[j] by {
            }
            assert(sort_keys@ =~= directory_totals(es));
        }
        let order = stable_order(&sort_keys, true);
        let m = if keys.len() < TOP_DIRECTORIES { keys.len() } else { TOP_DIRECTORIES };
        let mut r: Vec<(String, u64)> = Vec::new();
        let mut t: usize = 0;
        while t < m
            invariant
                t <= m,
                m <= keys@.len(),
                order@.len() == keys@.len(),
                is_order_of(order@, d.len()),
                keys@.len() == d.len(),
                forall|j: int| 0 <= j < keys@.len() ==> (#[trigger] keys@[j])@ == d[j],
                forall|j: int| 0 <= j < totals@.len() ==> #[trigger] totals@[j] == dir_total(es, d[j]),
                totals@.len() == d.len(),
                r@.len() == t,
                forall|x: int|
                    0 <= x < t ==> (#[trigger] r@[x]).0@ == d[order@[x] as int] && r@[x].1 == dir_total(
                        es,
                        d[order@[x] as int],
                    ),
            decreases m - t,
        {
            let j = order[t];
            r.push((keys[j].clone(), totals[j]));
            t = t + 1;
        }
        assert(is_order_of(order@, d.len()) && follows_keys(order@, directory_totals(es), true));
        r
    }
}

/// The sum over a prefix is at most the sum over the whole.
pub proof fn lemma_size_sum_prefix(es: Seq<FileEntry>, n: nat)
    requires
        n <= es.len(),
    ensures
        size_sum(es.take(n as int)) <= size_sum(es),
    decreases es.len() - n,
{
    if n < es.len() {
        lemma_size_sum_prefix(es, (n + 1) as nat);
        assert(es.take(n + 1 as int).drop_last() =~= es.take(n as int));
    } else {
        lemma_take_all(es);
    }
}

/// The space that deleting the safe entries would free never exceeds the
/// total size of the entries.
pub proof fn law_safe_savings_within_total(es: Seq<FileEntry>, cs: Seq<FileCategory>)
    ensures
        safe_sum(es, cs) <= size_sum(es),
{
    lemma_safe_sum_bounded(es, cs, es.len());
    lemma_take_all(es);
}

/// The number of entries in the groups.
pub open spec fn grouped_count(gs: Seq<(FileCategory, Seq<FileEntry>)>) -> nat
    decreases gs.len(),
{
    if gs.len() == 0 {
        0
    } else {
        grouped_count(gs.drop_last()) + gs.last().1.len()
    }
}

/// How many of the first `n` categories in `cs` have a rank below `k`.
pub open spec fn ranked_below(cs: Seq<FileCategory>, k: nat, n: nat) -> nat
    decreases n,
{
    if n == 0 {
        0
    } else {
        ranked_below(cs, k, (n - 1) as nat) + if cs[n - 1].rank() < k {
            1nat
        } else {
            0nat
        }
    }
}

proof fn lemma_members_count(es: Seq<FileEntry>, cs: Seq<FileCategory>, k: nat, n: nat)
    requires
        k < CATEGORY_COUNT,
        n <= es.len(),
        n <= cs.len(),
    ensures
        ranked_below(cs, k + 1, n) == ranked_below(cs, k, n) + members_upto(
            es,
            cs,
            FileCategory::at_rank(k),
            n,
        ).len(),
    decreases n,
{
    if n > 0 {
        lemma_members_count(es, cs, k, (n - 1) as nat);
        let c = cs[n - 1];
        lemma_rank_inverse(c);
        if c.rank() == k {
            assert(c == FileCategory::at_rank(k));
        } else {
            lemma_at_rank_rank(k);
            assert(c != FileCategory::at_rank(k));
        }
    }
}

proof fn lemma_at_rank_rank(k: nat)
    requires
        k < CATEGORY_COUNT,
    ensures
        FileCategory::at_rank(k).rank() == k,
{
}

proof fn lemma_groups_count(es: Seq<FileEntry>, cs: Seq<FileCategory>, k: nat)
    requires
        es.len() == cs.len(),
        k <= CATEGORY_COUNT,
    ensures
        grouped_count(groups_upto(es, cs, k)) == ranked_below(cs, k, es.len()),
    decreases k,
{
    if k == 0 {
        lemma_none_below_zero(cs, es.len());
    } else {
        lemma_groups_count(es, cs, (k - 1) as nat);
        lemma_members_count(es, cs, (k - 1) as nat, es.len());
        let c = FileCategory::at_rank((k - 1) as nat);
        let m = members(es, cs, c);
        if m.len() > 0 {
            assert(groups_upto(es, cs, k).drop_last() == groups_upto(es, cs, (k - 1) as nat));
        }
    }
}

proof fn lemma_none_below_zero(cs: Seq<FileCategory>, n: nat)
    requires
        n <= cs.len(),
    ensures
        ranked_below(cs, 0, n) == 0,
    decreases n,
{
    if n > 0 {
        lemma_none_below_zero(cs, (n - 1) as nat);
    }
}

proof fn lemma_all_ranked(cs: Seq<FileCategory>, n: nat)
    requires
        n <= cs.len(),
    ensures
        ranked_below(cs, CATEGORY_COUNT as nat, n) == n,
    decreases n,
{
    if n > 0 {
        lemma_all_ranked(cs, (n - 1) as nat);
        lemma_rank_inverse(cs[n - 1]);
    }
}

/// Grouping by category puts every entry in exactly one group: the groups
/// hold as many entries as there are, each group holds only entries of its
/// category, and no category has two groups.
pub proof fn law_groups_partition(es: Seq<FileEntry>, cs: Seq<FileCategory>)
    requires
        cs.len() == es.len(),
    ensures
        grouped_count(groups_of(es, cs)) == es.len(),
        forall|g: int|
            0 <= g < groups_of(es, cs).len() ==> (#[trigger] groups_of(es, cs)[g]).1 == members(
                es,
                cs,
                groups_of(es, cs)[g].0,
            ),
{
    lemma_groups_count(es, cs, CATEGORY_COUNT as nat);
    lemma_all_ranked(cs, es.len());
    lemma_groups_are_members(es, cs, CATEGORY_COUNT as nat);
}

proof fn lemma_groups_are_members(es: Seq<FileEntry>, cs: Seq<FileCategory>, k: nat)
    ensures
        forall|g: int|
            0 <= g < groups_upto(es, cs, k).len() ==> (#[trigger] groups_upto(es, cs, k)[g]).1 == members(
                es,
                cs,
                groups_upto(es, cs, k)[g].0,
            ),
    decreases k,
{
    if k > 0 {
        lemma_groups_are_members(es, cs, (k - 1) as nat);
        let prev = groups_upto(es, cs, (k - 1) as nat);
        let c = FileCategory::at_rank((k - 1) as nat);
        let m = members(es, cs, c);
        if m.len() > 0 {
            assert forall|g: int| 0 <= g < groups_upto(es, cs, k).len() implies (#[trigger] groups_upto(
                es,
                cs,
                k,
            )[g]).1 == members(es, cs, groups_upto(es, cs, k)[g].0) by {
                if g < prev.len() {
                    assert(groups_upto(es, cs, k)[g] == prev[g]);
                }
            }
        }
    }
}


/// The entries of the group for category `c`, or none when no group has it.
pub open spec fn group_lookup(gs: Seq<(FileCategory, Seq<FileEntry>)>, c: FileCategory) -> Seq<FileEntry>
    decreases gs.len(),
{
    if gs.len() == 0 {
        seq![]
    } else if gs.last().0 == c {
        gs.last().1
    } else {
        group_lookup(gs.drop_last(), c)
    }
}

proof fn lemma_lookup_upto(es: Seq<FileEntry>, cs: Seq<FileCategory>, k: nat)
    requires
        k <= CATEGORY_COUNT,
    ensures
        forall|c: FileCategory|
            #[trigger] group_lookup(groups_upto(es, cs, k), c) == if c.rank() < k {
                members(es, cs, c)
            } else {
                seq![]
            },
        forall|g: int| 0 <= g < groups_upto(es, cs, k).len() ==> (#[trigger] groups_upto(es, cs, k)[g]).1.len() > 0,
    decreases k,
{
    if k > 0 {
        lemma_lookup_upto(es, cs, (k - 1) as nat);
        let ck = FileCategory::at_rank((k - 1) as nat);
        let m = members(es, cs, ck);
        let prev = groups_upto(es, cs, (k - 1) as nat);
        lemma_at_rank_rank((k - 1) as nat);
        assert forall|c: FileCategory|
            #[trigger] group_lookup(groups_upto(es, cs, k), c) == if c.rank() < k {
                members(es, cs, c)
            } else {
                seq![]
            } by {
            lemma_rank_inverse(c);
            assert(group_lookup(prev, c) == if c.rank() < (k - 1) as nat {
                members(es, cs, c)
            } else {
                seq![]
            });
            if c == ck {
                if m.len() > 0 {
                    assert(groups_upto(es, cs, k).drop_last() == prev);
                } else {
                    assert(m =~= seq![]);
                }
            } else {
                assert(c.rank() != k - 1);
                if m.len() > 0 {
                    assert(groups_upto(es, cs, k).drop_last() == prev);
                }
            }
        }
        assert forall|g: int| 0 <= g < groups_upto(es, cs, k).len() implies (#[trigger] groups_upto(
            es,
            cs,
            k,
        )[g]).1.len() > 0 by {
            if g < prev.len() {
                assert(groups_upto(es, cs, k)[g] == prev[g]);
            }
        }
    }
}

/// Looking up a category among the groups gives exactly the entries of that
/// category, in the order they came in, and no group is empty: a category
/// with no entries has no group.
pub proof fn law_group_lookup(es: Seq<FileEntry>, cs: Seq<FileCategory>)
    ensures
        forall|c: FileCategory| #[trigger] group_lookup(groups_of(es, cs), c) == members(es, cs, c),
        forall|g: int| 0 <= g < groups_of(es, cs).len() ==> (#[trigger] groups_of(es, cs)[g]).1.len() > 0,
{
    lemma_lookup_upto(es, cs, CATEGORY_COUNT as nat);
    assert forall|c: FileCategory| #[trigger] group_lookup(groups_of(es, cs), c) == members(es, cs, c) by {
        lemma_rank_inverse(c);
    }
}


/// Judged at the same time, a file on its own is categorized as it is among
/// no other entries, and never as a duplicate name: a system file is a
/// system file, anything else gets the category its path and name give.
/// (`categorize_file_at`, `categorize_file_with_context_at` with no entries,
/// and `ClassificationRules::classify_at` all return `category_in`.)
pub proof fn law_alone_never_duplicate(e: FileEntry, now: i64)
    ensures
        category_in(e, seq![], now) != FileCategory::DuplicateName,
        category_in(e, seq![], now) == if e.is_system {
            FileCategory::SystemFiles
        } else {
            entry_pattern_category(e, now)
        },
{
    assert(!has_namesake(e, seq![]));
}


proof fn lemma_safe_entry_in_sum(es: Seq<FileEntry>, cs: Seq<FileCategory>, i: int, n: nat)
    requires
        0 <= i < n,
        n <= es.len(),
        n <= cs.len(),
        cs[i].safe(),
    ensures
        safe_sum_upto(es, cs, n) >= es[i].size,
    decreases n,
{
    if n - 1 > i {
        lemma_safe_entry_in_sum(es, cs, i, (n - 1) as nat);
    }
}

/// The savings count the whole size of every entry of a safe category: of
/// caches, temporary files, old files, duplicate names, logs, build outputs,
/// node_modules, package caches, downloads and archives.  A single archive
/// file saves exactly its size.
pub proof fn law_safe_entries_count(es: Seq<FileEntry>, cs: Seq<FileCategory>, i: int)
    requires
        cs.len() == es.len(),
        0 <= i < es.len(),
        cs[i] == FileCategory::Cache || cs[i] == FileCategory::TempFiles || cs[i] == FileCategory::OldFiles
            || cs[i] == FileCategory::DuplicateName || cs[i] == FileCategory::LogFiles || cs[i]
            == FileCategory::BuildArtifacts || cs[i] == FileCategory::NodeModules || cs[i]
            == FileCategory::PackageCache || cs[i] == FileCategory::Downloads || cs[i] == FileCategory::Archives,
    ensures
        safe_sum(es, cs) >= es[i].size,
        es.len() == 1 ==> safe_sum(es, cs) == es[0].size,
{
    crate::analyzer::category::law_safe_categories(cs[i]);
    lemma_safe_entry_in_sum(es, cs, i, es.len());
    if es.len() == 1 {
        assert(safe_sum_upto(es, cs, 0) == 0);
    }
}

} // verus!
