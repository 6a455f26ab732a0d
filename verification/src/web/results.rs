//! The results payload: totals, the category breakdown, the top-level
//! directories, the largest files and the advice, all from the categorized
//! entries of a scan.
use vstd::prelude::*;
use crate::analyzer::category::{FileCategory, CATEGORY_COUNT, all_categories, lemma_rank_inverse};
use crate::models::{FileEntry, StorageInfo};
use crate::paths::{path_strip_prefix, path_first_component, path_join, strip_prefix_of, first_component_of, join_path, opt_view};
use crate::rollup::{rollup, distinct_keys, key_total, opt_views, sizes_sum};
use crate::sorting::{IntKey, stable_order, is_order_of, follows_keys, nat_sum, lemma_permuted_sum};
use crate::text::{seq_contains, decimal, decimal_string, human, human_size, str_contains, concat3, concat5};
use crate::clock::format_local_minutes;
use crate::web::types::{CategoryDto, DirDto, FileDto, ResultsDto, StorageDto};

verus! {

/// The sum of the sizes of the first `n` entries.
pub open spec fn pair_bytes_upto(es: Seq<(FileEntry, FileCategory)>, n: nat) -> nat
    decreases n,
{
    if n == 0 {
        0
    } else {
        pair_bytes_upto(es, (n - 1) as nat) + es[n - 1].0.size as nat
    }
}

/// The sum of the sizes of all the entries.
pub open spec fn pair_bytes(es: Seq<(FileEntry, FileCategory)>) -> nat {
    pair_bytes_upto(es, es.len())
}

/// The number of files (not directories) among the first `n` entries.
pub open spec fn file_count_upto(es: Seq<(FileEntry, FileCategory)>, n: nat) -> nat
    decreases n,
{
    if n == 0 {
        0
    } else {
        file_count_upto(es, (n - 1) as nat) + if es[n - 1].0.is_dir { 0nat } else { 1nat }
    }
}

/// The number of directories among the first `n` entries.
pub open spec fn dir_count_upto(es: Seq<(FileEntry, FileCategory)>, n: nat) -> nat
    decreases n,
{
    if n == 0 {
        0
    } else {
        dir_count_upto(es, (n - 1) as nat) + if es[n - 1].0.is_dir { 1nat } else { 0nat }
    }
}

/// The total size of the files among the first `n` entries.
pub open spec fn file_bytes_upto(es: Seq<(FileEntry, FileCategory)>, n: nat) -> nat
    decreases n,
{
    if n == 0 {
        0
    } else {
        file_bytes_upto(es, (n - 1) as nat) + if es[n - 1].0.is_dir { 0nat } else { es[n - 1].0.size as nat }
    }
}

/// The total size of the files of a safe-to-delete category among the first
/// `n` entries.
pub open spec fn safe_bytes_upto(es: Seq<(FileEntry, FileCategory)>, n: nat) -> nat
    decreases n,
{
    if n == 0 {
        0
    } else {
        safe_bytes_upto(es, (n - 1) as nat) + if !es[n - 1].0.is_dir && es[n - 1].1.safe() {
            es[n - 1].0.size as nat
        } else {
            0nat
        }
    }
}

/// The number of entries of category `c` among the first `n`.
pub open spec fn cat_count_upto(es: Seq<(FileEntry, FileCategory)>, c: FileCategory, n: nat) -> nat
    decreases n,
{
    if n == 0 {
        0
    } else {
        cat_count_upto(es, c, (n - 1) as nat) + if es[n - 1].1 == c { 1nat } else { 0nat }
    }
}

/// The total size of the entries of category `c` among the first `n`.
pub open spec fn cat_bytes_upto(es: Seq<(FileEntry, FileCategory)>, c: FileCategory, n: nat) -> nat
    decreases n,
{
    if n == 0 {
        0
    } else {
        cat_bytes_upto(es, c, (n - 1) as nat) + if es[n - 1].1 == c { es[n - 1].0.size as nat } else { 0nat }
    }
}

/// The number of entries of category `c`.
pub open spec fn cat_count(es: Seq<(FileEntry, FileCategory)>, c: FileCategory) -> nat {
    cat_count_upto(es, c, es.len())
}

/// The total size of the entries of category `c`.
pub open spec fn cat_bytes(es: Seq<(FileEntry, FileCategory)>, c: FileCategory) -> nat {
    cat_bytes_upto(es, c, es.len())
}

/// The categories among the first `k` (in declaration order) that some entry
/// has.
pub open spec fn present_upto(es: Seq<(FileEntry, FileCategory)>, k: nat) -> Seq<FileCategory>
    decreases k,
{
    if k == 0 {
        seq![]
    } else {
        let c = FileCategory::at_rank((k - 1) as nat);
        if cat_count(es, c) > 0 {
            present_upto(es, (k - 1) as nat).push(c)
        } else {
            present_upto(es, (k - 1) as nat)
        }
    }
}

/// The categories that some entry has, in declaration order.
pub open spec fn present_categories(es: Seq<(FileEntry, FileCategory)>) -> Seq<FileCategory> {
    present_upto(es, CATEGORY_COUNT as nat)
}

/// The sizes of the present categories, as sort keys.
pub open spec fn category_keys(es: Seq<(FileEntry, FileCategory)>) -> Seq<IntKey> {
    present_categories(es).map_values(|c: FileCategory| IntKey(cat_bytes(es, c) as i128))
}

/// `d` describes category `c` of the entries.
pub open spec fn is_category_row(d: CategoryDto, es: Seq<(FileEntry, FileCategory)>, c: FileCategory) -> bool {
    &&& d.name@ == c.label()
    &&& d.color@ == c.color_label()
    &&& d.description@ == c.explanation()
    &&& d.size == cat_bytes(es, c)
    &&& d.count == cat_count(es, c)
    &&& d.safe == c.safe()
}

/// `r` describes each present category once, largest first (ties in
/// declaration order).
pub open spec fn is_category_breakdown(r: Seq<CategoryDto>, es: Seq<(FileEntry, FileCategory)>) -> bool {
    let p = present_categories(es);
    exists|order: Seq<usize>|
        #[trigger] is_order_of(order, p.len()) && follows_keys(order, category_keys(es), true) && r.len()
            == p.len() && forall|i: int| 0 <= i < r.len() ==> #[trigger] is_category_row(r[i], es, p[order[i] as int])
}

/// The number of the first `n` entries whose category ranks below `k`.
pub open spec fn below_count(es: Seq<(FileEntry, FileCategory)>, k: nat, n: nat) -> nat
    decreases n,
{
    if n == 0 {
        0
    } else {
        below_count(es, k, (n - 1) as nat) + if es[n - 1].1.rank() < k { 1nat } else { 0nat }
    }
}

/// The total size of the first `n` entries whose category ranks below `k`.
pub open spec fn below_bytes(es: Seq<(FileEntry, FileCategory)>, k: nat, n: nat) -> nat
    decreases n,
{
    if n == 0 {
        0
    } else {
        below_bytes(es, k, (n - 1) as nat) + if es[n - 1].1.rank() < k { es[n - 1].0.size as nat } else { 0nat }
    }
}

/// The entry counts of the first `k` categories, added up.
pub open spec fn count_by_rank(es: Seq<(FileEntry, FileCategory)>, k: nat) -> nat
    decreases k,
{
    if k == 0 {
        0
    } else {
        count_by_rank(es, (k - 1) as nat) + cat_count(es, FileCategory::at_rank((k - 1) as nat))
    }
}

/// The sizes of the first `k` categories, added up.
pub open spec fn bytes_by_rank(es: Seq<(FileEntry, FileCategory)>, k: nat) -> nat
    decreases k,
{
    if k == 0 {
        0
    } else {
        bytes_by_rank(es, (k - 1) as nat) + cat_bytes(es, FileCategory::at_rank((k - 1) as nat))
    }
}

/// The entry counts of the rows.
pub open spec fn row_counts(r: Seq<CategoryDto>) -> Seq<nat> {
    r.map_values(|d: CategoryDto| d.count as nat)
}

/// The sizes of the rows.
pub open spec fn row_sizes(r: Seq<CategoryDto>) -> Seq<nat> {
    r.map_values(|d: CategoryDto| d.size as nat)
}

proof fn lemma_below_step(es: Seq<(FileEntry, FileCategory)>, k: nat, n: nat)
    requires
        k < CATEGORY_COUNT,
        n <= es.len(),
    ensures
        below_count(es, k + 1, n) == below_count(es, k, n) + cat_count_upto(es, FileCategory::at_rank(k), n),
        below_bytes(es, k + 1, n) == below_bytes(es, k, n) + cat_bytes_upto(es, FileCategory::at_rank(k), n),
    decreases n,
{
    if n > 0 {
        lemma_below_step(es, k, (n - 1) as nat);
        let c = es[n - 1].1;
        lemma_rank_inverse(c);
        assert(FileCategory::at_rank(k).rank() == k);
        if c.rank() == k {
            assert(c == FileCategory::at_rank(k));
        } else {
            assert(c != FileCategory::at_rank(k));
        }
    }
}

proof fn lemma_below_none(es: Seq<(FileEntry, FileCategory)>, n: nat)
    requires
        n <= es.len(),
    ensures
        below_count(es, 0, n) == 0,
        below_bytes(es, 0, n) == 0,
    decreases n,
{
    if n > 0 {
        lemma_below_none(es, (n - 1) as nat);
    }
}

proof fn lemma_below_all(es: Seq<(FileEntry, FileCategory)>, n: nat)
    requires
        n <= es.len(),
    ensures
        below_count(es, CATEGORY_COUNT as nat, n) == n,
        below_bytes(es, CATEGORY_COUNT as nat, n) == pair_bytes_upto(es, n),
    decreases n,
{
    if n > 0 {
        lemma_below_all(es, (n - 1) as nat);
        lemma_rank_inverse(es[n - 1].1);
    }
}

proof fn lemma_by_rank(es: Seq<(FileEntry, FileCategory)>, k: nat)
    requires
        k <= CATEGORY_COUNT,
    ensures
        count_by_rank(es, k) == below_count(es, k, es.len()),
        bytes_by_rank(es, k) == below_bytes(es, k, es.len()),
    decreases k,
{
    if k == 0 {
        lemma_below_none(es, es.len());
    } else {
        lemma_by_rank(es, (k - 1) as nat);
        lemma_below_step(es, (k - 1) as nat, es.len());
    }
}

proof fn lemma_absent_no_bytes(es: Seq<(FileEntry, FileCategory)>, c: FileCategory, n: nat)
    requires
        n <= es.len(),
        cat_count_upto(es, c, n) == 0,
    ensures
        cat_bytes_upto(es, c, n) == 0,
    decreases n,
{
    if n > 0 {
        lemma_absent_no_bytes(es, c, (n - 1) as nat);
    }
}

proof fn lemma_present_sums(es: Seq<(FileEntry, FileCategory)>, k: nat)
    ensures
        nat_sum(present_upto(es, k).map_values(|c: FileCategory| cat_count(es, c))) == count_by_rank(es, k),
        nat_sum(present_upto(es, k).map_values(|c: FileCategory| cat_bytes(es, c))) == bytes_by_rank(es, k),
    decreases k,
{
    if k > 0 {
        lemma_present_sums(es, (k - 1) as nat);
        let c = FileCategory::at_rank((k - 1) as nat);
        let prev = present_upto(es, (k - 1) as nat);
        if cat_count(es, c) > 0 {
            assert(present_upto(es, k).map_values(|c: FileCategory| cat_count(es, c)).drop_last()
                =~= prev.map_values(|c: FileCategory| cat_count(es, c)));
            assert(present_upto(es, k).map_values(|c: FileCategory| cat_bytes(es, c)).drop_last()
                =~= prev.map_values(|c: FileCategory| cat_bytes(es, c)));
        } else {
            lemma_absent_no_bytes(es, c, es.len());
        }
    }
}

/// The rows of the category breakdown account for every entry once: their
/// counts add up to the number of entries and their sizes to the total size
/// of the entries.
pub proof fn law_breakdown_accounts_for_every_entry(r: Seq<CategoryDto>, es: Seq<(FileEntry, FileCategory)>)
    requires
        is_category_breakdown(r, es),
    ensures
        nat_sum(row_counts(r)) == es.len(),
        nat_sum(row_sizes(r)) == pair_bytes(es),
{
    let p = present_categories(es);
    let order = choose|order: Seq<usize>|
        #[trigger] is_order_of(order, p.len()) && follows_keys(order, category_keys(es), true) && r.len()
            == p.len() && forall|i: int| 0 <= i < r.len() ==> #[trigger] is_category_row(r[i], es, p[order[i] as int]);
    let pc = p.map_values(|c: FileCategory| cat_count(es, c));
    let pb = p.map_values(|c: FileCategory| cat_bytes(es, c));
    lemma_permuted_sum(order, pc);
    lemma_permuted_sum(order, pb);
    assert forall|i: int| 0 <= i < r.len() implies #[trigger] row_counts(r)[i] == pc[order[i] as int] by {
        assert(is_category_row(r[i], es, p[order[i] as int]));
    }
    assert forall|i: int| 0 <= i < r.len() implies #[trigger] row_sizes(r)[i] == pb[order[i] as int] by {
        assert(is_category_row(r[i], es, p[order[i] as int]));
    }
    assert(row_counts(r) =~= Seq::new(order.len(), |i: int| pc[order[i] as int]));
    assert(row_sizes(r) =~= Seq::new(order.len(), |i: int| pb[order[i] as int]));
    lemma_present_sums(es, CATEGORY_COUNT as nat);
    lemma_by_rank(es, CATEGORY_COUNT as nat);
    lemma_below_all(es, es.len());
}

proof fn lemma_bytes_bounded(es: Seq<(FileEntry, FileCategory)>, c: FileCategory, n: nat)
    requires
        n <= es.len(),
    ensures
        cat_bytes_upto(es, c, n) <= pair_bytes_upto(es, n),
        file_bytes_upto(es, n) <= pair_bytes_upto(es, n),
        safe_bytes_upto(es, n) <= pair_bytes_upto(es, n),
        cat_count_upto(es, c, n) <= n,
        file_count_upto(es, n) <= n,
        dir_count_upto(es, n) <= n,
    decreases n,
{
    if n > 0 {
        lemma_bytes_bounded(es, c, (n - 1) as nat);
    }
}

proof fn lemma_bytes_prefix(es: Seq<(FileEntry, FileCategory)>, n: nat)
    requires
        n <= es.len(),
    ensures
        pair_bytes_upto(es, n) <= pair_bytes(es),
    decreases es.len() - n,
{
    if n < es.len() {
        lemma_bytes_prefix(es, n + 1);
    }
}

/// The counts and sizes of the entries: files, directories, the bytes in
/// files, and the bytes in files of safe-to-delete categories.
pub fn totals(entries: &[(FileEntry, FileCategory)]) -> (r: (usize, usize, u64, u64))
    requires
        pair_bytes(entries@) <= u64::MAX,
    ensures
        r.0 == file_count_upto(entries@, entries@.len()),
        r.1 == dir_count_upto(entries@, entries@.len()),
        r.2 == file_bytes_upto(entries@, entries@.len()),
        r.3 == safe_bytes_upto(entries@, entries@.len()),
{
    let mut files: usize = 0;
    let mut dirs: usize = 0;
    let mut bytes: u64 = 0;
    let mut safe: u64 = 0;
    let mut i: usize = 0;
    while i < entries.len()
        invariant
            i <= entries@.len(),
            pair_bytes(entries@) <= u64::MAX,
            files == file_count_upto(entries@, i as nat),
            dirs == dir_count_upto(entries@, i as nat),
            bytes == file_bytes_upto(entries@, i as nat),
            safe == safe_bytes_upto(entries@, i as nat),
        decreases entries@.len() - i,
    {
        proof {
            lemma_bytes_bounded(entries@, FileCategory::Regular, (i + 1) as nat);
            lemma_bytes_prefix(entries@, (i + 1) as nat);
        }
        let e = &entries[i].0;
        if e.is_dir {
            dirs = dirs + 1;
        } else {
            files = files + 1;
            bytes = bytes + e.size;
            if entries[i].1.is_safe_to_delete() {
                safe = safe + e.size;
            }
        }
        i = i + 1;
    }
    (files, dirs, bytes, safe)
}

/// The number and total size of the entries of category `c`.
fn category_count_bytes(entries: &[(FileEntry, FileCategory)], c: FileCategory) -> (r: (usize, u64))
    requires
        pair_bytes(entries@) <= u64::MAX,
    ensures
        r.0 == cat_count(entries@, c),
        r.1 == cat_bytes(entries@, c),
{
    let mut count: usize = 0;
    let mut bytes: u64 = 0;
    let mut i: usize = 0;
    while i < entries.len()
        invariant
            i <= entries@.len(),
            pair_bytes(entries@) <= u64::MAX,
            count == cat_count_upto(entries@, c, i as nat),
            bytes == cat_bytes_upto(entries@, c, i as nat),
        decreases entries@.len() - i,
    {
        proof {
            lemma_bytes_bounded(entries@, c, (i + 1) as nat);
            lemma_bytes_prefix(entries@, (i + 1) as nat);
        }
        if entries[i].1 == c {
            count = count + 1;
            bytes = bytes + entries[i].0.size;
        }
        i = i + 1;
    }
    (count, bytes)
}

/// One row for each category that some entry has, largest first (ties in
/// declaration order).
pub fn category_breakdown(entries: &[(FileEntry, FileCategory)]) -> (r: Vec<CategoryDto>)
    requires
        pair_bytes(entries@) <= u64::MAX,
    ensures
        is_category_breakdown(r@, entries@),
{
    let ghost es = entries@;
    let all = all_categories();
    let mut present: Vec<FileCategory> = Vec::new();
    let mut rows: Vec<CategoryDto> = Vec::new();
    let mut keys: Vec<IntKey> = Vec::new();
    let mut k: usize = 0;
    while k < CATEGORY_COUNT
        invariant
            k <= CATEGORY_COUNT,
            pair_bytes(es) <= u64::MAX,
            es == entries@,
            all@.len() == CATEGORY_COUNT,
            forall|i: int| 0 <= i < CATEGORY_COUNT ==> #[trigger] all@[i] == FileCategory::at_rank(i as nat),
            present@ == present_upto(es, k as nat),
            rows@.len() == present@.len(),
            keys@.len() == present@.len(),
            forall|i: int| 0 <= i < rows@.len() ==> #[trigger] is_category_row(rows@[i], es, present@[i]),
            forall|i: int| 0 <= i < keys@.len() ==> #[trigger] keys@[i] == IntKey(cat_bytes(es, present@[i]) as i128),
        decreases CATEGORY_COUNT - k,
    {
        let c = all[k];
        let (count, bytes) = category_count_bytes(entries, c);
        if count > 0 {
            present.push(c);
            rows.push(CategoryDto {
                name: String::from_str(c.as_str()),
                color: String::from_str(c.color()),
                description: String::from_str(c.description()),
                size: bytes,
                count,
                safe: c.is_safe_to_delete(),
            });
            keys.push(IntKey(bytes as i128));
        }
        k = k + 1;
    }
    assert(keys@ =~= category_keys(es));
    let order = stable_order(&keys, true);
    let mut r: Vec<CategoryDto> = Vec::new();
    let mut t: usize = 0;
    while t < order.len()
        invariant
            t <= order@.len(),
            is_order_of(order@, present@.len()),
            rows@.len() == present@.len(),
            present@ == present_categories(es),
            forall|i: int| 0 <= i < rows@.len() ==> #[trigger] is_category_row(rows@[i], es, present@[i]),
            r@.len() == t,
            forall|x: int| 0 <= x < t ==> #[trigger] is_category_row(r@[x], es, present@[order@[x] as int]),
        decreases order@.len() - t,
    {
        let j = order[t];
        let row = &rows[j];
        r.push(CategoryDto {
            name: row.name.clone(),
            color: row.color.clone(),
            description: row.description.clone(),
            size: row.size,
            count: row.count,
            safe: row.safe,
        });
        t = t + 1;
    }
    assert(is_order_of(order@, present_categories(es).len()) && follows_keys(order@, category_keys(es), true));
    r
}

/// The most directories in the results.
pub const MAX_DIRS: usize = 50;

/// The most files in the results.
pub const MAX_FILES: usize = 500;

/// The top-level directory (under `root`) that a file adds its size to; none
/// for a directory or a path outside `root`.
pub open spec fn rollup_key(e: FileEntry, root: Seq<char>) -> Option<Seq<char>> {
    if e.is_dir {
        None
    } else {
        match path_strip_prefix(e.path@, root) {
            Some(rel) => path_first_component(rel),
            None => None,
        }
    }
}

/// The rollup keys of the entries.
pub open spec fn rollup_keys(es: Seq<(FileEntry, FileCategory)>, root: Seq<char>) -> Seq<Option<Seq<char>>> {
    es.map_values(|p: (FileEntry, FileCategory)| rollup_key(p.0, root))
}

/// The sizes of the entries.
pub open spec fn entry_sizes(es: Seq<(FileEntry, FileCategory)>) -> Seq<u64> {
    es.map_values(|p: (FileEntry, FileCategory)| p.0.size)
}

/// The top-level directories under `root`, each once, in order of first
/// appearance.
pub open spec fn top_level_names(es: Seq<(FileEntry, FileCategory)>, root: Seq<char>) -> Seq<Seq<char>> {
    distinct_keys(rollup_keys(es, root))
}

/// The total size of the files under top-level directory `name`.
pub open spec fn top_level_total(es: Seq<(FileEntry, FileCategory)>, root: Seq<char>, name: Seq<char>) -> nat {
    key_total(rollup_keys(es, root), entry_sizes(es), name)
}

/// The totals of the top-level directories, as sort keys.
pub open spec fn top_level_keys(es: Seq<(FileEntry, FileCategory)>, root: Seq<char>) -> Seq<IntKey> {
    top_level_names(es, root).map_values(|n: Seq<char>| IntKey(top_level_total(es, root, n) as i128))
}

/// `d` describes top-level directory `name`.
pub open spec fn is_dir_row(d: DirDto, es: Seq<(FileEntry, FileCategory)>, root: Seq<char>, name: Seq<char>) -> bool {
    &&& d.name@ == name
    &&& d.path@ == path_join(root, name)
    &&& d.size == top_level_total(es, root, name)
}

/// `r` describes the top-level directories, largest first (ties in order of
/// first appearance), at most 50.
pub open spec fn is_directory_rollup(r: Seq<DirDto>, es: Seq<(FileEntry, FileCategory)>, root: Seq<char>) -> bool {
    let names = top_level_names(es, root);
    exists|order: Seq<usize>|
        #[trigger] is_order_of(order, names.len()) && follows_keys(order, top_level_keys(es, root), true)
            && r.len() == (if names.len() < MAX_DIRS { names.len() } else { MAX_DIRS as nat })
            && forall|i: int| 0 <= i < r.len() ==> #[trigger] is_dir_row(r[i], es, root, names[order[i] as int])
}

proof fn lemma_sizes_match(es: Seq<(FileEntry, FileCategory)>, n: nat)
    requires
        n <= es.len(),
    ensures
        sizes_sum(entry_sizes(es).take(n as int)) == pair_bytes_upto(es, n),
    decreases n,
{
    if n > 0 {
        lemma_sizes_match(es, (n - 1) as nat);
        assert(entry_sizes(es).take(n as int).drop_last() =~= entry_sizes(es).take(n - 1));
    }
}

/// The top-level directories under `scan_path` with the total size of the
/// files in each, largest first (ties in order of first appearance), at most
/// 50.
pub fn directory_rollup(scan_path: &str, entries: &[(FileEntry, FileCategory)]) -> (r: Vec<DirDto>)
    requires
        pair_bytes(entries@) <= u64::MAX,
    ensures
        is_directory_rollup(r@, entries@, scan_path@),
{
    let ghost es = entries@;
    let ghost root = scan_path@;
    let mut ks: Vec<Option<String>> = Vec::new();
    let mut sizes: Vec<u64> = Vec::new();
    let mut i: usize = 0;
    while i < entries.len()
        invariant
            i <= entries@.len(),
            es == entries@,
            root == scan_path@,
            ks@.len() == i,
            opt_views(ks@) == rollup_keys(es, root).take(i as int),
            sizes@ == entry_sizes(es).take(i as int),
        decreases entries@.len() - i,
    {
        let e = &entries[i].0;
        let key: Option<String> = if e.is_dir {
            None
        } else {
            match strip_prefix_of(e.path.as_str(), scan_path) {
                Some(rel) => first_component_of(rel.as_str()),
                None => None,
            }
        };
        assert(opt_view(key) == rollup_key(es[i as int].0, root));
        let ghost old_ks = ks@;
        ks.push(key);
        sizes.push(e.size);
        assert(ks@ == old_ks.push(key));
        assert forall|j: int| 0 <= j < i + 1 implies #[trigger] opt_views(ks@)[j] == rollup_keys(es, root).take(i + 1)[j] by {
            if j < i {
                assert(ks@[j] == old_ks[j]);
                assert(opt_views(old_ks)[j] == rollup_keys(es, root).take(i as int)[j]);
            }
        }
        assert(opt_views(ks@) =~= rollup_keys(es, root).take(i + 1));
        assert(sizes@ =~= entry_sizes(es).take(i + 1));
        i = i + 1;
    }
    assert(opt_views(ks@) =~= rollup_keys(es, root));
    assert(sizes@ =~= entry_sizes(es));
    proof {
        lemma_sizes_match(es, es.len());
        assert(entry_sizes(es).take(es.len() as int) =~= entry_sizes(es));
    }
    let (names, totals) = rollup(&ks, &sizes);
    let ghost nm = top_level_names(es, root);
    let mut keys: Vec<IntKey> = Vec::new();
    let mut q: usize = 0;
    while q < totals.len()
        invariant
            q <= totals@.len(),
            totals@.len() == nm.len(),
            names@.len() == nm.len(),
            forall|j: int| 0 <= j < totals@.len() ==> #[trigger] totals@[j] == top_level_total(es, root, nm[j]),
            keys@.len() == q,
            es == entries@,
            root == scan_path@,
            nm == top_level_names(es, root),
            keys@ == top_level_keys(es, root).take(q as int),
        decreases totals@.len() - q,
    {
        keys.push(IntKey(totals[q] as i128));
        assert(top_level_keys(es, root).len() == nm.len());
        assert(top_level_keys(es, root)[q as int] == IntKey(top_level_total(es, root, nm[q as int]) as i128));
        assert(keys@ =~= top_level_keys(es, root).take(q + 1));
        q = q + 1;
    }
    assert(keys@ =~= top_level_keys(es, root));
    let order = stable_order(&keys, true);
    let m = if names.len() < MAX_DIRS { names.len() } else { MAX_DIRS };
    let mut r: Vec<DirDto> = Vec::new();
    let mut t: usize = 0;
    while t < m
        invariant
            t <= m,
            m <= names@.len(),
            es == entries@,
            root == scan_path@,
            names@.len() == nm.len(),
            totals@.len() == nm.len(),
            is_order_of(order@, nm.len()),
            forall|j: int| 0 <= j < names@.len() ==> (#[trigger] names@[j])@ == nm[j],
            forall|j: int| 0 <= j < totals@.len() ==> #[trigger] totals@[j] == top_level_total(es, root, nm[j]),
            r@.len() == t,
            forall|x: int| 0 <= x < t ==> #[trigger] is_dir_row(r@[x], es, root, nm[order@[x] as int]),
        decreases m - t,
    {
        let j = order[t];
        let path = join_path(scan_path, names[j].as_str());
        let row = DirDto { name: names[j].clone(), path, size: totals[j] };
        assert(is_dir_row(row, es, root, nm[j as int]));
        r.push(row);
        t = t + 1;
    }
    assert(is_order_of(order@, nm.len()) && follows_keys(order@, top_level_keys(es, root), true));
    r
}

/// The files (not directories) among the first `n` entries, in order.
pub open spec fn files_upto(es: Seq<(FileEntry, FileCategory)>, n: nat) -> Seq<(FileEntry, FileCategory)>
    decreases n,
{
    if n == 0 {
        seq![]
    } else if es[n - 1].0.is_dir {
        files_upto(es, (n - 1) as nat)
    } else {
        files_upto(es, (n - 1) as nat).push(es[n - 1])
    }
}

/// The files (not directories) among the entries, in order.
pub open spec fn files_of(es: Seq<(FileEntry, FileCategory)>) -> Seq<(FileEntry, FileCategory)> {
    files_upto(es, es.len())
}

/// The sizes of the files, as sort keys.
pub open spec fn file_keys(es: Seq<(FileEntry, FileCategory)>) -> Seq<IntKey> {
    files_of(es).map_values(|p: (FileEntry, FileCategory)| IntKey(p.0.size as i128))
}

/// `d` describes the categorized file `p` (its time text aside).
pub open spec fn is_file_row(d: FileDto, p: (FileEntry, FileCategory)) -> bool {
    &&& d.path@ == p.0.path@
    &&& d.name@ == p.0.name@
    &&& d.size == p.0.size
    &&& d.category@ == p.1.label()
    &&& d.color@ == p.1.color_label()
    &&& d.safe == p.1.safe()
    &&& d.is_dir == p.0.is_dir
    &&& d.is_hidden == p.0.is_hidden
    &&& d.is_system == p.0.is_system
}

/// `r` describes the largest files, largest first (ties in their order), at
/// most 500.
pub open spec fn is_file_listing(r: Seq<FileDto>, es: Seq<(FileEntry, FileCategory)>) -> bool {
    let fs = files_of(es);
    exists|order: Seq<usize>|
        #[trigger] is_order_of(order, fs.len()) && follows_keys(order, file_keys(es), true)
            && r.len() == (if fs.len() < MAX_FILES { fs.len() } else { MAX_FILES as nat })
            && forall|i: int| 0 <= i < r.len() ==> #[trigger] is_file_row(r[i], fs[order[i] as int])
}

/// The largest files (not directories), largest first (ties in their
/// order), at most 500; each with its modification time in local time.
pub fn largest_files(entries: &[(FileEntry, FileCategory)]) -> (r: Vec<FileDto>)
    ensures
        is_file_listing(r@, entries@),
{
    let ghost es = entries@;
    let mut fs: Vec<usize> = Vec::new();
    let mut keys: Vec<IntKey> = Vec::new();
    let mut i: usize = 0;
    while i < entries.len()
        invariant
            i <= entries@.len(),
            es == entries@,
            fs@.len() == files_upto(es, i as nat).len(),
            keys@ == files_upto(es, i as nat).map_values(|p: (FileEntry, FileCategory)| IntKey(p.0.size as i128)),
            forall|j: int| 0 <= j < fs@.len() ==> #[trigger] fs@[j] < i && es[fs@[j] as int] == files_upto(es, i as nat)[j],
        decreases entries@.len() - i,
    {
        if !entries[i].0.is_dir {
            fs.push(i);
            keys.push(IntKey(entries[i].0.size as i128));
            assert(keys@ =~= files_upto(es, (i + 1) as nat).map_values(|p: (FileEntry, FileCategory)| IntKey(p.0.size as i128)));
        }
        i = i + 1;
    }
    let ghost fl = files_of(es);
    let order = stable_order(&keys, true);
    let m = if fs.len() < MAX_FILES { fs.len() } else { MAX_FILES };
    let mut r: Vec<FileDto> = Vec::new();
    let mut t: usize = 0;
    while t < m
        invariant
            t <= m,
            m <= fs@.len(),
            fs@.len() == fl.len(),
            is_order_of(order@, fl.len()),
            forall|j: int| 0 <= j < fs@.len() ==> #[trigger] fs@[j] < entries@.len() && entries@[fs@[j] as int] == fl[j],
            r@.len() == t,
            forall|x: int| 0 <= x < t ==> #[trigger] is_file_row(r@[x], fl[order@[x] as int]),
        decreases m - t,
    {
        let j = order[t];
        let (e, cat) = (&entries[fs[j]].0, entries[fs[j]].1);
        r.push(FileDto {
            path: e.path.clone(),
            name: e.name.clone(),
            size: e.size,
            category: String::from_str(cat.as_str()),
            color: String::from_str(cat.color()),
            safe: cat.is_safe_to_delete(),
            is_dir: e.is_dir,
            is_hidden: e.is_hidden,
            is_system: e.is_system,
            modified: format_local_minutes(e.modified),
        });
        t = t + 1;
    }
    assert(is_order_of(order@, fl.len()) && follows_keys(order@, file_keys(es), true));
    r
}

/// The position of the first category whose name contains `needle`.
pub open spec fn first_named(cs: Seq<CategoryDto>, needle: Seq<char>) -> Option<int>
    decreases cs.len(),
{
    if cs.len() == 0 {
        None
    } else if seq_contains(cs[0].name@, needle) {
        Some(0)
    } else {
        match first_named(cs.drop_first(), needle) {
            Some(i) => Some(i + 1),
            None => None,
        }
    }
}

/// The line for the category named by `needle`, if some category's name
/// contains it.
pub open spec fn named_line(cs: Seq<CategoryDto>, needle: Seq<char>, kind: nat) -> Seq<Seq<char>> {
    match first_named(cs, needle) {
        Some(i) => {
            let c = cs[i];
            if kind == 0 {
                seq!["🛑 "@ + decimal(c.count as nat) + " system files found — DO NOT DELETE"@]
            } else if kind == 1 {
                seq!["📦 "@ + decimal(c.count as nat) + " node_modules entries using "@ + human_size(c.size)
                    + " — safe to delete"@]
            } else if kind == 2 {
                seq!["🔨 Build artifacts using "@ + human_size(c.size) + " — can be regenerated"@]
            } else if kind == 3 {
                seq!["🗑️ Cache files using "@ + human_size(c.size) + " — safe to delete"@]
            } else if kind == 4 {
                seq!["📥 Package cache using "@ + human_size(c.size) + " — can be re-downloaded"@]
            } else if kind == 5 {
                if c.size > 52428800 {
                    seq!["📜 Log files using "@ + human_size(c.size) + " — consider cleaning"@]
                } else {
                    seq![]
                }
            } else {
                seq!["👁️ "@ + decimal(c.count as nat) + " hidden files using "@ + human_size(c.size)
                    + " — review carefully"@]
            }
        },
        None => seq![],
    }
}

/// The needle that finds the category of line kind `kind`.
pub open spec fn needle_of(kind: nat) -> Seq<char> {
    if kind == 0 {
        "System Files"@
    } else if kind == 1 {
        "node_modules"@
    } else if kind == 2 {
        "Build Artifacts"@
    } else if kind == 3 {
        "Cache"@
    } else if kind == 4 {
        "Package Cache"@
    } else if kind == 5 {
        "Log Files"@
    } else {
        "Hidden Files"@
    }
}

/// The note on the largest directory, if it holds anything.
pub open spec fn largest_dir_line(ds: Seq<DirDto>) -> Seq<Seq<char>> {
    if ds.len() > 0 && ds[0].size > 0 {
        seq!["📂 Largest directory: "@ + ds[0].name@ + " ("@ + human_size(ds[0].size) + ")"@]
    } else {
        seq![]
    }
}

/// The notes of the first `k` kinds, after the largest-directory note.
pub open spec fn notes_upto(cs: Seq<CategoryDto>, ds: Seq<DirDto>, k: nat) -> Seq<Seq<char>>
    decreases k,
{
    if k == 0 {
        largest_dir_line(ds)
    } else {
        notes_upto(cs, ds, (k - 1) as nat) + named_line(cs, needle_of((k - 1) as nat), (k - 1) as nat)
    }
}

/// The advice on the results page: the largest directory, then notes on
/// system files, node_modules, build outputs, caches, package caches, logs
/// over 50 MiB and hidden files, each from the first category whose name
/// holds the note's key; a reassurance when there is nothing to say.
pub open spec fn web_recommendations(cs: Seq<CategoryDto>, ds: Seq<DirDto>) -> Seq<Seq<char>> {
    let notes = notes_upto(cs, ds, 7);
    if notes.len() == 0 {
        seq!["✨ Nothing obvious to clean up here."@]
    } else {
        notes
    }
}

/// Row `i` is the first of the rows `cs` whose name holds `needle`.
pub open spec fn first_row_with(cs: Seq<CategoryDto>, needle: Seq<char>, i: int) -> bool {
    &&& 0 <= i < cs.len()
    &&& seq_contains(cs[i].name@, needle)
    &&& forall|j: int| 0 <= j < i ==> !seq_contains(#[trigger] cs[j].name@, needle)
}

proof fn lemma_first_named_at(cs: Seq<CategoryDto>, needle: Seq<char>, i: int)
    requires
        first_row_with(cs, needle, i),
    ensures
        first_named(cs, needle) == Some(i),
    decreases i,
{
    if i > 0 {
        assert(!seq_contains(cs[0].name@, needle));
        assert forall|j: int| 0 <= j < i - 1 implies !seq_contains(#[trigger] cs.drop_first()[j].name@, needle) by {
            assert(cs.drop_first()[j] == cs[j + 1]);
        }
        assert(cs.drop_first()[i - 1] == cs[i]);
        lemma_first_named_at(cs.drop_first(), needle, i - 1);
    }
}

proof fn lemma_notes_hold(cs: Seq<CategoryDto>, ds: Seq<DirDto>, k: nat, m: nat, x: Seq<char>)
    requires
        m < k,
        named_line(cs, needle_of(m), m).contains(x),
    ensures
        notes_upto(cs, ds, k).contains(x),
    decreases k,
{
    let prev = notes_upto(cs, ds, (k - 1) as nat);
    let line = named_line(cs, needle_of((k - 1) as nat), (k - 1) as nat);
    if m == k - 1 {
        let q = choose|q: int| 0 <= q < line.len() && line[q] == x;
        assert((prev + line)[prev.len() + q] == x);
    } else {
        lemma_notes_hold(cs, ds, (k - 1) as nat, m, x);
        let q = choose|q: int| 0 <= q < prev.len() && prev[q] == x;
        assert((prev + line)[q] == x);
    }
}

proof fn lemma_advice_holds(cs: Seq<CategoryDto>, ds: Seq<DirDto>, m: nat, x: Seq<char>)
    requires
        m < 7,
        named_line(cs, needle_of(m), m).contains(x),
    ensures
        web_recommendations(cs, ds).contains(x),
{
    lemma_notes_hold(cs, ds, 7, m, x);
}

/// The advice speaks of the first row whose name holds each key: system
/// files ("System Files"), node_modules, build outputs ("Build Artifacts"),
/// caches ("Cache"), package caches ("Package Cache"), logs over 50 MiB
/// ("Log Files") and hidden files ("Hidden Files"), with that row's count
/// and size.
pub proof fn law_advice_names_the_rows(cs: Seq<CategoryDto>, ds: Seq<DirDto>, i: int)
    ensures
        first_row_with(cs, "System Files"@, i) ==> web_recommendations(cs, ds).contains(
            "🛑 "@ + decimal(cs[i].count as nat) + " system files found — DO NOT DELETE"@,
        ),
        first_row_with(cs, "node_modules"@, i) ==> web_recommendations(cs, ds).contains(
            "📦 "@ + decimal(cs[i].count as nat) + " node_modules entries using "@ + human_size(cs[i].size)
                + " — safe to delete"@,
        ),
        first_row_with(cs, "Build Artifacts"@, i) ==> web_recommendations(cs, ds).contains(
            "🔨 Build artifacts using "@ + human_size(cs[i].size) + " — can be regenerated"@,
        ),
        first_row_with(cs, "Cache"@, i) ==> web_recommendations(cs, ds).contains(
            "🗑️ Cache files using "@ + human_size(cs[i].size) + " — safe to delete"@,
        ),
        first_row_with(cs, "Package Cache"@, i) ==> web_recommendations(cs, ds).contains(
            "📥 Package cache using "@ + human_size(cs[i].size) + " — can be re-downloaded"@,
        ),
        first_row_with(cs, "Log Files"@, i) && cs[i].size > 52428800 ==> web_recommendations(cs, ds).contains(
            "📜 Log files using "@ + human_size(cs[i].size) + " — consider cleaning"@,
        ),
        first_row_with(cs, "Hidden Files"@, i) ==> web_recommendations(cs, ds).contains(
            "👁️ "@ + decimal(cs[i].count as nat) + " hidden files using "@ + human_size(cs[i].size)
                + " — review carefully"@,
        ),
        ds.len() > 0 && ds[0].size > 0 ==> web_recommendations(cs, ds).contains(
            "📂 Largest directory: "@ + ds[0].name@ + " ("@ + human_size(ds[0].size) + ")"@,
        ),
{
    if first_row_with(cs, "System Files"@, i) {
        lemma_first_named_at(cs, "System Files"@, i);
        assert(first_named(cs, needle_of(0)) == Some(i));
        lemma_advice_holds(cs, ds, 0, named_line(cs, needle_of(0), 0)[0]);
    }
    if first_row_with(cs, "node_modules"@, i) {
        lemma_first_named_at(cs, "node_modules"@, i);
        assert(first_named(cs, needle_of(1)) == Some(i));
        lemma_advice_holds(cs, ds, 1, named_line(cs, needle_of(1), 1)[0]);
    }
    if first_row_with(cs, "Build Artifacts"@, i) {
        lemma_first_named_at(cs, "Build Artifacts"@, i);
        assert(first_named(cs, needle_of(2)) == Some(i));
        lemma_advice_holds(cs, ds, 2, named_line(cs, needle_of(2), 2)[0]);
    }
    if first_row_with(cs, "Cache"@, i) {
        lemma_first_named_at(cs, "Cache"@, i);
        assert(first_named(cs, needle_of(3)) == Some(i));
        lemma_advice_holds(cs, ds, 3, named_line(cs, needle_of(3), 3)[0]);
    }
    if first_row_with(cs, "Package Cache"@, i) {
        lemma_first_named_at(cs, "Package Cache"@, i);
        assert(first_named(cs, needle_of(4)) == Some(i));
        lemma_advice_holds(cs, ds, 4, named_line(cs, needle_of(4), 4)[0]);
    }
    if first_row_with(cs, "Log Files"@, i) && cs[i].size > 52428800 {
        lemma_first_named_at(cs, "Log Files"@, i);
        assert(first_named(cs, needle_of(5)) == Some(i));
        lemma_advice_holds(cs, ds, 5, named_line(cs, needle_of(5), 5)[0]);
    }
    if first_row_with(cs, "Hidden Files"@, i) {
        lemma_first_named_at(cs, "Hidden Files"@, i);
        assert(first_named(cs, needle_of(6)) == Some(i));
        lemma_advice_holds(cs, ds, 6, named_line(cs, needle_of(6), 6)[0]);
    }
    if ds.len() > 0 && ds[0].size > 0 {
        lemma_largest_note_kept(cs, ds, 7);
    }
}

proof fn lemma_largest_note_kept(cs: Seq<CategoryDto>, ds: Seq<DirDto>, k: nat)
    requires
        ds.len() > 0,
        ds[0].size > 0,
    ensures
        notes_upto(cs, ds, k).len() > 0,
        notes_upto(cs, ds, k)[0] == "📂 Largest directory: "@ + ds[0].name@ + " ("@ + human_size(ds[0].size) + ")"@,
        k == 7 ==> web_recommendations(cs, ds).contains(
            "📂 Largest directory: "@ + ds[0].name@ + " ("@ + human_size(ds[0].size) + ")"@,
        ),
    decreases k,
{
    if k > 0 {
        lemma_largest_note_kept(cs, ds, (k - 1) as nat);
    }
}

fn find_named(cs: &Vec<CategoryDto>, needle: &str) -> (r: Option<usize>)
    ensures
        match r {
            Some(i) => first_named(cs@, needle@) == Some(i as int) && i < cs@.len(),
            None => first_named(cs@, needle@) is None,
        },
{
    let mut i: usize = 0;
    assert(cs@.skip(0) =~= cs@);
    while i < cs.len()
        invariant
            i <= cs@.len(),
            first_named(cs@, needle@) == match first_named(cs@.skip(i as int), needle@) {
                Some(j) => Some(j + i),
                None => None,
            },
        decreases cs@.len() - i,
    {
        assert(cs@.skip(i as int)[0] == cs@[i as int]);
        if str_contains(cs[i].name.as_str(), needle) {
            return Some(i);
        }
        assert(cs@.skip(i as int).drop_first() =~= cs@.skip(i + 1));
        i = i + 1;
    }
    None
}

fn note_for(cs: &Vec<CategoryDto>, kind: u8) -> (r: Vec<String>)
    requires
        kind < 7,
    ensures
        crate::analyzer::recommend::string_views(r@) == named_line(cs@, needle_of(kind as nat), kind as nat),
{
    let needle = if kind == 0 {
        "System Files"
    } else if kind == 1 {
        "node_modules"
    } else if kind == 2 {
        "Build Artifacts"
    } else if kind == 3 {
        "Cache"
    } else if kind == 4 {
        "Package Cache"
    } else if kind == 5 {
        "Log Files"
    } else {
        "Hidden Files"
    };
    assert(needle@ == needle_of(kind as nat));
    let mut r: Vec<String> = Vec::new();
    match find_named(cs, needle) {
        Some(i) => {
            let c = &cs[i];
            if kind == 0 {
                let n = decimal_string(c.count as u64);
                r.push(concat3("🛑 ", n.as_str(), " system files found — DO NOT DELETE"));
            } else if kind == 1 {
                let n = decimal_string(c.count as u64);
                let h = human(c.size);
                r.push(concat5("📦 ", n.as_str(), " node_modules entries using ", h.as_str(), " — safe to delete"));
            } else if kind == 2 {
                let h = human(c.size);
                r.push(concat3("🔨 Build artifacts using ", h.as_str(), " — can be regenerated"));
            } else if kind == 3 {
                let h = human(c.size);
                r.push(concat3("🗑️ Cache files using ", h.as_str(), " — safe to delete"));
            } else if kind == 4 {
                let h = human(c.size);
                r.push(concat3("📥 Package cache using ", h.as_str(), " — can be re-downloaded"));
            } else if kind == 5 {
                if c.size > 52428800 {
                    let h = human(c.size);
                    r.push(concat3("📜 Log files using ", h.as_str(), " — consider cleaning"));
                }
            } else {
                let n = decimal_string(c.count as u64);
                let h = human(c.size);
                r.push(concat5("👁️ ", n.as_str(), " hidden files using ", h.as_str(), " — review carefully"));
            }
        },
        None => {},
    }
    assert(crate::analyzer::recommend::string_views(r@) =~= named_line(cs@, needle_of(kind as nat), kind as nat));
    r
}

/// The advice for the results page, from its category rows and directory
/// rows.
pub fn build_recommendations(categories: &Vec<CategoryDto>, directories: &Vec<DirDto>) -> (recs: Vec<String>)
    ensures
        crate::analyzer::recommend::string_views(recs@) == web_recommendations(categories@, directories@),
{
    let mut recs: Vec<String> = Vec::new();
    if directories.len() > 0 && directories[0].size > 0 {
        let h = human(directories[0].size);
        recs.push(concat5("📂 Largest directory: ", directories[0].name.as_str(), " (", h.as_str(), ")"));
    }
    assert(crate::analyzer::recommend::string_views(recs@) =~= notes_upto(categories@, directories@, 0));
    let mut kind: u8 = 0;
    while kind < 7
        invariant
            kind <= 7,
            crate::analyzer::recommend::string_views(recs@) == notes_upto(categories@, directories@, kind as nat),
        decreases 7 - kind,
    {
        let mut more = note_for(categories, kind);
        crate::analyzer::recommend::append_lines(&mut recs, &mut more);
        kind = kind + 1;
    }
    if recs.len() == 0 {
        recs.push(String::from_str("✨ Nothing obvious to clean up here."));
        assert(crate::analyzer::recommend::string_views(recs@) =~= seq!["✨ Nothing obvious to clean up here."@]);
    }
    recs
}

/// Everything the results page shows for the categorized entries of a scan
/// of `scan_path`, on a filesystem with the given storage figures.
pub fn build_results(scan_path: &str, entries: &[(FileEntry, FileCategory)], storage: StorageInfo) -> (r: ResultsDto)
    requires
        pair_bytes(entries@) <= u64::MAX,
    ensures
        r.scan_path@ == scan_path@,
        r.total_files == file_count_upto(entries@, entries@.len()),
        r.total_dirs == dir_count_upto(entries@, entries@.len()),
        r.total_size == file_bytes_upto(entries@, entries@.len()),
        r.safe_savings == safe_bytes_upto(entries@, entries@.len()),
        r.storage == (StorageDto {
            total: storage.total_space,
            used: storage.used_space,
            available: storage.available_space,
        }),
        is_category_breakdown(r.categories@, entries@),
        is_directory_rollup(r.directories@, entries@, scan_path@),
        is_file_listing(r.files@, entries@),
        crate::analyzer::recommend::string_views(r.recommendations@) == web_recommendations(
            r.categories@,
            r.directories@,
        ),
{
    let (total_files, total_dirs, total_size, safe_savings) = totals(entries);
    let categories = category_breakdown(entries);
    let directories = directory_rollup(scan_path, entries);
    let files = largest_files(entries);
    let recommendations = build_recommendations(&categories, &directories);
    ResultsDto {
        scan_path: String::from_str(scan_path),
        total_size,
        total_files,
        total_dirs,
        safe_savings,
        storage: StorageDto {
            total: storage.total_space,
            used: storage.used_space,
            available: storage.available_space,
        },
        categories,
        directories,
        files,
        recommendations,
    }
}

} // verus!
