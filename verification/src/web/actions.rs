//! The decisions behind the API: progress snapshots, categorizing a finished
//! scan, and which requested deletions may go ahead and what they free.  The
//! deleting itself is done by the caller between `plan_deletions` and
//! `apply_deletions`.
use vstd::prelude::*;
use crate::analyzer::category::FileCategory;
use crate::analyzer::rules::{ClassificationRules, category_in};
use crate::models::{FileEntry, ScanProgress};
use crate::paths::{path_starts_with, starts_with_path, normalized, normalize_path};
use crate::text::str_eq;
use crate::sorting::{IntKey, stable_order, is_order_of, follows_keys};
use crate::clock::unix_now;
use crate::web::types::{DeleteResponse, DeleteResult, ProgressCategoryDto, ProgressDto};
use crate::web::results::{pair_bytes, pair_bytes_upto};

verus! {

/// The group sizes of a progress record, as sort keys.
pub open spec fn group_keys(gs: Seq<(String, u64)>) -> Seq<IntKey> {
    gs.map_values(|g: (String, u64)| IntKey(g.1 as i128))
}

/// `r` is the progress record `p` for the browser, its groups largest first
/// (ties in their order).
pub open spec fn is_progress_of(r: ProgressDto, p: ScanProgress) -> bool {
    &&& r.files == p.files_scanned
    &&& r.dirs == p.dirs_scanned
    &&& r.size == p.total_size_scanned
    &&& r.current_path@ == p.current_path@
    &&& r.complete == p.is_complete
    &&& exists|order: Seq<usize>|
        #[trigger] is_order_of(order, p.category_sizes@.len()) && follows_keys(
            order,
            group_keys(p.category_sizes@),
            true,
        ) && r.categories@.len() == p.category_sizes@.len() && forall|i: int|
            0 <= i < r.categories@.len() ==> (#[trigger] r.categories@[i]).name@ == p.category_sizes@[order[i] as int].0@
                && r.categories@[i].size == p.category_sizes@[order[i] as int].1
}

/// The progress record for the browser, its groups largest first.
pub fn progress_dto(p: &ScanProgress) -> (r: ProgressDto)
    ensures
        is_progress_of(r, *p),
{
    let ghost gs = p.category_sizes@;
    let mut keys: Vec<IntKey> = Vec::new();
    let mut i: usize = 0;
    while i < p.category_sizes.len()
        invariant
            gs == p.category_sizes@,
            i <= gs.len(),
            keys@ == group_keys(gs).take(i as int),
        decreases gs.len() - i,
    {
        keys.push(IntKey(p.category_sizes[i].1 as i128));
        assert(keys@ =~= group_keys(gs).take(i + 1));
        i = i + 1;
    }
    assert(keys@ =~= group_keys(gs));
    let order = stable_order(&keys, true);
    let mut cats: Vec<ProgressCategoryDto> = Vec::new();
    let mut t: usize = 0;
    while t < order.len()
        invariant
            gs == p.category_sizes@,
            t <= order@.len(),
            is_order_of(order@, gs.len()),
            cats@.len() == t,
            forall|x: int|
                0 <= x < t ==> (#[trigger] cats@[x]).name@ == gs[order@[x] as int].0@ && cats@[x].size
                    == gs[order@[x] as int].1,
        decreases order@.len() - t,
    {
        let j = order[t];
        cats.push(ProgressCategoryDto { name: p.category_sizes[j].0.clone(), size: p.category_sizes[j].1 });
        t = t + 1;
    }
    let r = ProgressDto {
        files: p.files_scanned,
        dirs: p.dirs_scanned,
        size: p.total_size_scanned,
        current_path: p.current_path.clone(),
        complete: p.is_complete,
        categories: cats,
    };
    assert(is_order_of(order@, gs.len()) && follows_keys(order@, group_keys(gs), true));
    r
}

/// Each entry paired with its category on its own (no duplicate-name
/// context) at time `now`.
pub fn categorize_each_at(entries: Vec<FileEntry>, now: i64) -> (r: Vec<(FileEntry, FileCategory)>)
    ensures
        r@.len() == entries@.len(),
        forall|i: int| 0 <= i < r@.len() ==> #[trigger] r@[i] == (entries@[i], category_in(entries@[i], seq![], now)),
{
    let none: Vec<FileEntry> = Vec::new();
    assert(none@ =~= Seq::<FileEntry>::empty());
    let mut r: Vec<(FileEntry, FileCategory)> = Vec::new();
    let mut i: usize = 0;
    while i < entries.len()
        invariant
            i <= entries@.len(),
            none@ == Seq::<FileEntry>::empty(),
            r@.len() == i,
            forall|j: int| 0 <= j < i ==> #[trigger] r@[j] == (entries@[j], category_in(entries@[j], seq![], now)),
        decreases entries@.len() - i,
    {
        let c = ClassificationRules::classify_at(&entries[i], none.as_slice(), now);
        r.push((entries[i].duplicate(), c));
        i = i + 1;
    }
    r
}

/// `r` pairs each entry with its category on its own at time `now`.
pub open spec fn categorized_alone(r: Seq<(FileEntry, FileCategory)>, es: Seq<FileEntry>, now: i64) -> bool {
    r.len() == es.len() && forall|i: int| 0 <= i < r.len() ==> #[trigger] r[i] == (es[i], category_in(es[i], seq![], now))
}

/// Each entry of a finished scan paired with its category on its own, judged
/// now (once for all of them).
pub fn categorize_scan(entries: Vec<FileEntry>) -> (r: Vec<(FileEntry, FileCategory)>)
    ensures
        exists|now: i64| categorized_alone(r@, entries@, now),
{
    let now = unix_now();
    let r = categorize_each_at(entries, now);
    assert(categorized_alone(r@, entries@, now));
    r
}

/// The path `p` is `target` itself or lies under it, component by component
/// (`Path::starts_with`, which holds of a path and itself).
pub open spec fn at_or_under(p: Seq<char>, target: Seq<char>) -> bool {
    p == target || path_starts_with(p, target)
}

/// The total size of the files (not directories) at or under `target`
/// among the first `n` entries.
pub open spec fn under_bytes_upto(es: Seq<(FileEntry, FileCategory)>, target: Seq<char>, n: nat) -> nat
    decreases n,
{
    if n == 0 {
        0
    } else {
        under_bytes_upto(es, target, (n - 1) as nat) + if !es[n - 1].0.is_dir && at_or_under(
            es[n - 1].0.path@,
            target,
        ) {
            es[n - 1].0.size as nat
        } else {
            0nat
        }
    }
}

/// The total size of the scanned files at or under `target`.
pub open spec fn under_bytes(es: Seq<(FileEntry, FileCategory)>, target: Seq<char>) -> nat {
    under_bytes_upto(es, target, es.len())
}

proof fn lemma_under_bounded(es: Seq<(FileEntry, FileCategory)>, target: Seq<char>, n: nat)
    requires
        n <= es.len(),
    ensures
        under_bytes_upto(es, target, n) <= pair_bytes_upto(es, n),
        pair_bytes_upto(es, n) <= pair_bytes(es),
    decreases es.len() - n,
{
    lemma_under_prefix(es, target, n);
    if n < es.len() {
        lemma_under_bounded(es, target, n + 1);
    }
}

proof fn lemma_under_prefix(es: Seq<(FileEntry, FileCategory)>, target: Seq<char>, n: nat)
    ensures
        under_bytes_upto(es, target, n) <= pair_bytes_upto(es, n),
    decreases n,
{
    if n > 0 {
        lemma_under_prefix(es, target, (n - 1) as nat);
    }
}

/// The space that deleting `target` frees, by what the scan found: the total
/// size of the scanned files at or under it.
pub fn estimate_from_entries(entries: &[(FileEntry, FileCategory)], target: &str) -> (t: u64)
    requires
        pair_bytes(entries@) <= u64::MAX,
    ensures
        t == under_bytes(entries@, target@),
{
    let mut t: u64 = 0;
    let mut i: usize = 0;
    while i < entries.len()
        invariant
            i <= entries@.len(),
            pair_bytes(entries@) <= u64::MAX,
            t == under_bytes_upto(entries@, target@, i as nat),
        decreases entries@.len() - i,
    {
        proof {
            lemma_under_bounded(entries@, target@, (i + 1) as nat);
        }
        let e = &entries[i].0;
        if !e.is_dir && (str_eq(e.path.as_str(), target) || starts_with_path(e.path.as_str(), target)) {
            t = t + e.size;
        }
        i = i + 1;
    }
    t
}

/// One requested deletion: the path as asked, whether it lies inside the
/// scanned root, and the space it would free.
#[derive(Debug, Clone)]
pub struct DeleteStep {
    pub path: String,
    pub allowed: bool,
    pub size: u64,
}

/// `step` is the plan for deleting `raw` inside `root`: it is allowed only
/// when `raw`, with `.` and `..` resolved, starts with the resolved `root`,
/// component by component.
pub open spec fn is_step_for(step: DeleteStep, raw: Seq<char>, root: Seq<char>, es: Seq<(FileEntry, FileCategory)>) -> bool {
    &&& step.path@ == raw
    &&& step.allowed == path_starts_with(normalized(raw), normalized(root))
    &&& step.size == (if step.allowed { under_bytes(es, raw) } else { 0 })
}

/// The plan for a delete request: only paths inside the scanned root may be
/// deleted (judged with `.` and `..` resolved, so `<root>/../x` is refused
/// and `<root>/a/../b` allowed), and each is expected to free what the scan
/// found under it.
pub fn plan_deletions(scan_root: &str, entries: &[(FileEntry, FileCategory)], paths: &Vec<String>) -> (plan: Vec<DeleteStep>)
    requires
        pair_bytes(entries@) <= u64::MAX,
    ensures
        plan@.len() == paths@.len(),
        forall|i: int| 0 <= i < plan@.len() ==> #[trigger] is_step_for(plan@[i], paths@[i]@, scan_root@, entries@),
{
    let root = normalize_path(scan_root);
    let mut plan: Vec<DeleteStep> = Vec::new();
    let mut i: usize = 0;
    while i < paths.len()
        invariant
            i <= paths@.len(),
            pair_bytes(entries@) <= u64::MAX,
            root@ == normalized(scan_root@),
            plan@.len() == i,
            forall|j: int| 0 <= j < i ==> #[trigger] is_step_for(plan@[j], paths@[j]@, scan_root@, entries@),
        decreases paths@.len() - i,
    {
        let raw = &paths[i];
        let resolved = normalize_path(raw.as_str());
        if starts_with_path(resolved.as_str(), root.as_str()) {
            let size = estimate_from_entries(entries, raw.as_str());
            plan.push(DeleteStep { path: raw.clone(), allowed: true, size });
        } else {
            plan.push(DeleteStep { path: raw.clone(), allowed: false, size: 0 });
        }
        i = i + 1;
    }
    plan
}

/// The space freed by the first `n` steps that were allowed and succeeded.
pub open spec fn freed_upto(plan: Seq<DeleteStep>, done: Seq<bool>, n: nat) -> nat
    decreases n,
{
    if n == 0 {
        0
    } else {
        freed_upto(plan, done, (n - 1) as nat) + if plan[n - 1].allowed && done[n - 1] {
            plan[n - 1].size as nat
        } else {
            0nat
        }
    }
}

/// The number of the first `n` steps that were allowed and succeeded.
pub open spec fn deleted_upto(plan: Seq<DeleteStep>, done: Seq<bool>, n: nat) -> nat
    decreases n,
{
    if n == 0 {
        0
    } else {
        deleted_upto(plan, done, (n - 1) as nat) + if plan[n - 1].allowed && done[n - 1] { 1nat } else { 0nat }
    }
}

/// The sum of the planned sizes.
pub open spec fn plan_bytes_upto(plan: Seq<DeleteStep>, n: nat) -> nat
    decreases n,
{
    if n == 0 {
        0
    } else {
        plan_bytes_upto(plan, (n - 1) as nat) + plan[n - 1].size as nat
    }
}

/// Some allowed and successful step deleted a path that `p` lies at or
/// under.
pub open spec fn under_deleted(p: Seq<char>, plan: Seq<DeleteStep>, done: Seq<bool>) -> bool {
    exists|j: int| 0 <= j < plan.len() && plan[j].allowed && done[j] && at_or_under(p, #[trigger] plan[j].path@)
}

/// The first `n` entries that lie under no deleted path, in order.
pub open spec fn kept_upto(
    es: Seq<(FileEntry, FileCategory)>,
    plan: Seq<DeleteStep>,
    done: Seq<bool>,
    n: nat,
) -> Seq<(FileEntry, FileCategory)>
    decreases n,
{
    if n == 0 {
        seq![]
    } else if under_deleted(es[n - 1].0.path@, plan, done) {
        kept_upto(es, plan, done, (n - 1) as nat)
    } else {
        kept_upto(es, plan, done, (n - 1) as nat).push(es[n - 1])
    }
}

proof fn lemma_freed_bounded(plan: Seq<DeleteStep>, done: Seq<bool>, n: nat)
    ensures
        freed_upto(plan, done, n) <= plan_bytes_upto(plan, n),
        deleted_upto(plan, done, n) <= n,
    decreases n,
{
    if n > 0 {
        lemma_freed_bounded(plan, done, (n - 1) as nat);
    }
}

proof fn lemma_plan_bytes_prefix(plan: Seq<DeleteStep>, n: nat, m: nat)
    requires
        n <= m,
    ensures
        plan_bytes_upto(plan, n) <= plan_bytes_upto(plan, m),
    decreases m - n,
{
    if n < m {
        lemma_plan_bytes_prefix(plan, n, (m - 1) as nat);
    }
}

/// Whether `p` lies at or under a path that an allowed step deleted.
fn is_under_deleted(p: &str, plan: &Vec<DeleteStep>, done: &Vec<bool>) -> (b: bool)
    requires
        plan@.len() == done@.len(),
    ensures
        b == under_deleted(p@, plan@, done@),
{
    let mut j: usize = 0;
    while j < plan.len()
        invariant
            j <= plan@.len(),
            plan@.len() == done@.len(),
            forall|q: int| 0 <= q < j ==> !(plan@[q].allowed && done@[q] && at_or_under(p@, #[trigger] plan@[q].path@)),
        decreases plan@.len() - j,
    {
        if plan[j].allowed && done[j] && (str_eq(p, plan[j].path.as_str()) || starts_with_path(
            p,
            plan[j].path.as_str(),
        )) {
            return true;
        }
        j = j + 1;
    }
    false
}

/// After the deletions were tried (`done[i]` is whether the path of step
/// `i` was deleted): the answer to the request, and the entries with every
/// entry under a deleted path dropped.  A path outside the root never
/// counts as deleted.
pub fn apply_deletions(
    entries: &mut Vec<(FileEntry, FileCategory)>,
    plan: &Vec<DeleteStep>,
    done: &Vec<bool>,
) -> (r: DeleteResponse)
    requires
        plan@.len() == done@.len(),
        plan_bytes_upto(plan@, plan@.len()) <= u64::MAX,
    ensures
        r.results@.len() == plan@.len(),
        forall|i: int|
            0 <= i < plan@.len() ==> (#[trigger] r.results@[i]).path@ == plan@[i].path@ && r.results@[i].success
                == (plan@[i].allowed && done@[i]),
        r.freed == freed_upto(plan@, done@, plan@.len()),
        r.deleted == deleted_upto(plan@, done@, plan@.len()),
        final(entries)@ == kept_upto(old(entries)@, plan@, done@, old(entries)@.len()),
{
    let mut results: Vec<DeleteResult> = Vec::new();
    let mut freed: u64 = 0;
    let mut deleted: usize = 0;
    let mut i: usize = 0;
    while i < plan.len()
        invariant
            i <= plan@.len(),
            plan@.len() == done@.len(),
            plan_bytes_upto(plan@, plan@.len()) <= u64::MAX,
            results@.len() == i,
            forall|j: int|
                0 <= j < i ==> (#[trigger] results@[j]).path@ == plan@[j].path@ && results@[j].success == (
                plan@[j].allowed && done@[j]),
            freed == freed_upto(plan@, done@, i as nat),
            deleted == deleted_upto(plan@, done@, i as nat),
        decreases plan@.len() - i,
    {
        proof {
            lemma_freed_bounded(plan@, done@, (i + 1) as nat);
            lemma_plan_bytes_prefix(plan@, (i + 1) as nat, plan@.len());
        }
        let ok = plan[i].allowed && done[i];
        if ok {
            freed = freed + plan[i].size;
            deleted = deleted + 1;
        }
        results.push(DeleteResult { path: plan[i].path.clone(), success: ok });
        i = i + 1;
    }
    let ghost es = entries@;
    let mut kept: Vec<(FileEntry, FileCategory)> = Vec::new();
    let mut k: usize = 0;
    while k < entries.len()
        invariant
            k <= entries@.len(),
            es == entries@,
            plan@.len() == done@.len(),
            kept@ == kept_upto(es, plan@, done@, k as nat),
        decreases entries@.len() - k,
    {
        if !is_under_deleted(entries[k].0.path.as_str(), plan, done) {
            kept.push((entries[k].0.duplicate(), entries[k].1));
        }
        k = k + 1;
    }
    *entries = kept;
    DeleteResponse { results, freed, deleted }
}

proof fn lemma_kept_upto(es: Seq<(FileEntry, FileCategory)>, plan: Seq<DeleteStep>, done: Seq<bool>, n: nat)
    requires
        n <= es.len(),
    ensures
        forall|k: int|
            0 <= k < kept_upto(es, plan, done, n).len() ==> !under_deleted(
                (#[trigger] kept_upto(es, plan, done, n)[k]).0.path@,
                plan,
                done,
            ) && es.take(n as int).contains(kept_upto(es, plan, done, n)[k]),
        forall|i: int|
            0 <= i < n && !under_deleted(es[i].0.path@, plan, done) ==> kept_upto(es, plan, done, n).contains(
                #[trigger] es[i],
            ),
    decreases n,
{
    if n > 0 {
        let m = (n - 1) as nat;
        lemma_kept_upto(es, plan, done, m);
        let prev = kept_upto(es, plan, done, m);
        let cur = kept_upto(es, plan, done, n);
        assert forall|k: int| 0 <= k < cur.len() implies !under_deleted(
            (#[trigger] cur[k]).0.path@,
            plan,
            done,
        ) && es.take(n as int).contains(cur[k]) by {
            if k < prev.len() {
                assert(cur[k] == prev[k]);
                let q = choose|q: int| 0 <= q < es.take(m as int).len() && es.take(m as int)[q] == prev[k];
                assert(es.take(n as int)[q] == prev[k]);
            } else {
                assert(cur[k] == es[m as int]);
                assert(es.take(n as int)[m as int] == es[m as int]);
            }
        }
        assert forall|i: int| 0 <= i < n && !under_deleted(es[i].0.path@, plan, done) implies cur.contains(
            #[trigger] es[i],
        ) by {
            if i < m {
                let q = choose|q: int| 0 <= q < prev.len() && prev[q] == es[i];
                assert(cur[q] == es[i]);
            } else {
                assert(cur[prev.len() as int] == es[i]);
            }
        }
    }
}

/// After a delete request, exactly the entries at or under a path that was
/// deleted leave the results: no entry kept lies under one, every entry
/// that lies under none is kept, and nothing else appears.
pub proof fn law_deleted_entries_leave(es: Seq<(FileEntry, FileCategory)>, plan: Seq<DeleteStep>, done: Seq<bool>)
    ensures
        forall|k: int|
            0 <= k < kept_upto(es, plan, done, es.len()).len() ==> !under_deleted(
                (#[trigger] kept_upto(es, plan, done, es.len())[k]).0.path@,
                plan,
                done,
            ) && es.contains(kept_upto(es, plan, done, es.len())[k]),
        forall|i: int|
            0 <= i < es.len() && !under_deleted(es[i].0.path@, plan, done) ==> kept_upto(
                es,
                plan,
                done,
                es.len(),
            ).contains(#[trigger] es[i]),
{
    lemma_kept_upto(es, plan, done, es.len());
    assert(es.take(es.len() as int) =~= es);
}

/// A path that lies outside the scanned root once `.` and `..` are resolved
/// is never deleted and is expected to free nothing, whatever the attempt
/// reports.
pub proof fn law_outside_root_not_deleted(
    step: DeleteStep,
    raw: Seq<char>,
    root: Seq<char>,
    es: Seq<(FileEntry, FileCategory)>,
    done: bool,
)
    requires
        is_step_for(step, raw, root, es),
        !path_starts_with(normalized(raw), normalized(root)),
    ensures
        !(step.allowed && done),
        step.size == 0,
{
}

/// The space a delete request reports as freed is at most what its plan
/// expected, and it reports at most as many deletions as paths asked.
pub proof fn law_freed_within_plan(plan: Seq<DeleteStep>, done: Seq<bool>)
    ensures
        freed_upto(plan, done, plan.len()) <= plan_bytes_upto(plan, plan.len()),
        deleted_upto(plan, done, plan.len()) <= plan.len(),
{
    lemma_freed_bounded(plan, done, plan.len());
}


proof fn lemma_file_in_under_bytes(es: Seq<(FileEntry, FileCategory)>, target: Seq<char>, i: int, n: nat)
    requires
        0 <= i < n,
        n <= es.len(),
        !es[i].0.is_dir,
        at_or_under(es[i].0.path@, target),
    ensures
        under_bytes_upto(es, target, n) >= es[i].0.size,
    decreases n,
{
    if n - 1 > i {
        lemma_file_in_under_bytes(es, target, i, (n - 1) as nat);
    }
}

/// Deleting a path is expected to free at least the size of every scanned
/// file at or under it, the path itself included: a scanned file asked for
/// by its own path is expected to free its size, and when it is the only
/// entry, exactly its size.
pub proof fn law_target_file_counts(es: Seq<(FileEntry, FileCategory)>, target: Seq<char>, i: int)
    requires
        0 <= i < es.len(),
        !es[i].0.is_dir,
        es[i].0.path@ == target || path_starts_with(es[i].0.path@, target),
    ensures
        under_bytes(es, target) >= es[i].0.size,
        es.len() == 1 ==> under_bytes(es, target) == es[0].0.size,
{
    lemma_file_in_under_bytes(es, target, i, es.len());
    if es.len() == 1 {
        assert(under_bytes_upto(es, target, 0) == 0);
        assert(under_bytes(es, target) == under_bytes_upto(es, target, 1));
    }
}


/// An entry whose path was itself deleted leaves the results.
pub proof fn law_deleted_path_leaves(es: Seq<(FileEntry, FileCategory)>, plan: Seq<DeleteStep>, done: Seq<bool>, i: int, j: int)
    requires
        0 <= i < es.len(),
        0 <= j < plan.len(),
        j < done.len(),
        plan[j].allowed,
        done[j],
        es[i].0.path@ == plan[j].path@,
    ensures
        !kept_upto(es, plan, done, es.len()).contains(es[i]),
{
    assert(under_deleted(es[i].0.path@, plan, done));
    law_deleted_entries_leave(es, plan, done);
}

} // verus!
