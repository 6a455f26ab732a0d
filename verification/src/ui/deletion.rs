//! Marking entries for deletion in the terminal interface, and what it
//! decides before and after the files are removed: the warning for system
//! files, the confirmation prompt, and the listing left afterwards.
use vstd::prelude::*;
use crate::models::{FileEntry, ScanResult, StorageInfo};
use crate::analyzer::analysis::{
    Analyzer,
    size_sum,
    categories_of,
    groups_of,
    groups_match,
    lemma_take_all,
};
use crate::analyzer::recommend::{string_views, recommendation_lines, top_directory};
use crate::paths::{path_eq, path_starts_with, same_path, starts_with_path};
use crate::scanner::utils::{system_warning, get_system_warning};
use crate::text::{decimal, decimal_string, human, human_size, concat2, concat3, concat5};
use crate::ui::types::{AppState, ViewMode};
use crate::ui::app::{App, scan_entries, is_browse_listing, browse_count, browse_count_upto, browse_shown, views_of};

verus! {

/// `s` without the first occurrence of `x` (unchanged where `x` does not
/// occur).
pub open spec fn without_first(s: Seq<usize>, x: usize) -> Seq<usize>
    decreases s.len(),
{
    if s.len() == 0 {
        s
    } else if s[0] == x {
        s.drop_first()
    } else {
        seq![s[0]] + without_first(s.drop_first(), x)
    }
}

proof fn lemma_without_first_at(s: Seq<usize>, x: usize, p: int)
    requires
        0 <= p < s.len(),
        s[p] == x,
        forall|q: int| 0 <= q < p ==> s[q] != x,
    ensures
        without_first(s, x) == s.remove(p),
    decreases p,
{
    if p > 0 {
        lemma_without_first_at(s.drop_first(), x, p - 1);
        assert(s.remove(p) =~= seq![s[0]] + s.drop_first().remove(p - 1));
    } else {
        assert(s.remove(0) =~= s.drop_first());
    }
}

proof fn lemma_without_absent(s: Seq<usize>, x: usize)
    requires
        !s.contains(x),
    ensures
        without_first(s, x) == s,
    decreases s.len(),
{
    if s.len() > 0 {
        assert(!s.drop_first().contains(x)) by {
            if s.drop_first().contains(x) {
                let q = choose|q: int| 0 <= q < s.drop_first().len() && s.drop_first()[q] == x;
                assert(s[q + 1] == x);
            }
        }
        lemma_without_absent(s.drop_first(), x);
        assert(s =~= seq![s[0]] + s.drop_first());
    }
}

/// Removes the first occurrence of `x` from `v`, if any; says whether there
/// was one.
pub fn remove_first(v: &mut Vec<usize>, x: usize) -> (found: bool)
    ensures
        found == old(v)@.contains(x),
        final(v)@ == without_first(old(v)@, x),
{
    let mut i: usize = 0;
    while i < v.len()
        invariant
            i <= v@.len(),
            v@ == old(v)@,
            forall|q: int| 0 <= q < i ==> v@[q] != x,
        decreases v@.len() - i,
    {
        if v[i] == x {
            proof {
                lemma_without_first_at(v@, x, i as int);
            }
            v.remove(i);
            return true;
        }
        i = i + 1;
    }
    proof {
        lemma_without_absent(v@, x);
    }
    false
}

/// The first `n` marked positions that name scanned system entries, in order.
pub open spec fn marked_system_upto(es: Seq<FileEntry>, marked: Seq<usize>, n: nat) -> Seq<usize>
    decreases n,
{
    if n == 0 {
        Seq::empty()
    } else if marked[n - 1] < es.len() && es[marked[n - 1] as int].is_system {
        marked_system_upto(es, marked, (n - 1) as nat).push(marked[n - 1])
    } else {
        marked_system_upto(es, marked, (n - 1) as nat)
    }
}

/// The marked positions that name scanned system entries, in order.
pub open spec fn marked_system(es: Seq<FileEntry>, marked: Seq<usize>) -> Seq<usize> {
    marked_system_upto(es, marked, marked.len())
}

/// The paths of the scanned entries named by the first `n` marked
/// positions, in order.
pub open spec fn marked_paths_upto(es: Seq<FileEntry>, marked: Seq<usize>, n: nat) -> Seq<Seq<char>>
    decreases n,
{
    if n == 0 {
        Seq::empty()
    } else if marked[n - 1] < es.len() {
        marked_paths_upto(es, marked, (n - 1) as nat).push(es[marked[n - 1] as int].path@)
    } else {
        marked_paths_upto(es, marked, (n - 1) as nat)
    }
}

/// The paths of the marked scanned entries, in order.
pub open spec fn marked_paths(es: Seq<FileEntry>, marked: Seq<usize>) -> Seq<Seq<char>> {
    marked_paths_upto(es, marked, marked.len())
}

/// The paths of the scanned non-system entries named by the first `n`
/// marked positions, in order.
pub open spec fn deletable_upto(es: Seq<FileEntry>, marked: Seq<usize>, n: nat) -> Seq<Seq<char>>
    decreases n,
{
    if n == 0 {
        Seq::empty()
    } else if marked[n - 1] < es.len() && !es[marked[n - 1] as int].is_system {
        deletable_upto(es, marked, (n - 1) as nat).push(es[marked[n - 1] as int].path@)
    } else {
        deletable_upto(es, marked, (n - 1) as nat)
    }
}

/// The paths the interface deletes: those of the marked scanned entries
/// that are not system entries, in order.
pub open spec fn deletable_paths(es: Seq<FileEntry>, marked: Seq<usize>) -> Seq<Seq<char>> {
    deletable_upto(es, marked, marked.len())
}

/// The text of the warning about `n` marked system entries, the first at
/// `path`, with the warning `w` for that path.
pub open spec fn warning_text(n: nat, path: Seq<char>, w: Option<Seq<char>>) -> Seq<char> {
    "🛑 SYSTEM FILE WARNING\n\n"@ + decimal(n) + " system file(s) selected\n\n"@ + path + "\n\n"@ + match w {
        Some(t) => t,
        None => "Critical system file"@,
    } + "\n\nPress Y to proceed (dangerous) or N to cancel"@
}

/// The first `n` paths of `ps` whose deletion succeeded by `done`.
pub open spec fn succeeded_upto(ps: Seq<Seq<char>>, done: Seq<bool>, n: nat) -> Seq<Seq<char>>
    decreases n,
{
    if n == 0 {
        Seq::empty()
    } else if done[n - 1] {
        succeeded_upto(ps, done, (n - 1) as nat).push(ps[n - 1])
    } else {
        succeeded_upto(ps, done, (n - 1) as nat)
    }
}

/// The path `p` is, or lies under, one of the deleted paths `ds`.
pub open spec fn gone_with(p: Seq<char>, ds: Seq<Seq<char>>) -> bool {
    exists|k: int| 0 <= k < ds.len() && (path_eq(p, #[trigger] ds[k]) || path_starts_with(p, ds[k]))
}

/// The first `n` entries that remain after the paths `ds` are deleted, in
/// order.
pub open spec fn remaining_upto(es: Seq<FileEntry>, ds: Seq<Seq<char>>, n: nat) -> Seq<FileEntry>
    decreases n,
{
    if n == 0 {
        Seq::empty()
    } else if gone_with(es[n - 1].path@, ds) {
        remaining_upto(es, ds, (n - 1) as nat)
    } else {
        remaining_upto(es, ds, (n - 1) as nat).push(es[n - 1])
    }
}

/// The entries that remain after the paths `ds` are deleted, in order.
pub open spec fn remaining(es: Seq<FileEntry>, ds: Seq<Seq<char>>) -> Seq<FileEntry> {
    remaining_upto(es, ds, es.len())
}

/// The status line after a deletion with `ok` successes and `failed`
/// failures.
pub open spec fn deleted_note(ok: nat, failed: nat) -> Seq<char> {
    if failed > 0 {
        "✓ Deleted "@ + decimal(ok) + " · ✗ "@ + decimal(failed) + " failed"@
    } else {
        "✓ Deleted "@ + decimal(ok) + " items"@
    }
}

proof fn lemma_remaining_bounded(es: Seq<FileEntry>, ds: Seq<Seq<char>>, n: nat)
    requires
        n <= es.len(),
    ensures
        size_sum(remaining_upto(es, ds, n)) <= size_sum(es.take(n as int)),
    decreases n,
{
    if n > 0 {
        lemma_remaining_bounded(es, ds, (n - 1) as nat);
        assert(es.take(n as int).drop_last() =~= es.take(n - 1));
        if !gone_with(es[n - 1].path@, ds) {
            assert(remaining_upto(es, ds, n).drop_last() =~= remaining_upto(es, ds, (n - 1) as nat));
        }
    }
}

/// Whether `p` is, or lies under, one of the paths `ds`.
fn is_gone(p: &str, ds: &Vec<String>) -> (b: bool)
    ensures
        b == gone_with(p@, views_of(ds@)),
{
    let mut k: usize = 0;
    while k < ds.len()
        invariant
            k <= ds@.len(),
            forall|q: int|
                0 <= q < k ==> !(path_eq(p@, #[trigger] views_of(ds@)[q]) || path_starts_with(
                    p@,
                    views_of(ds@)[q],
                )),
        decreases ds@.len() - k,
    {
        if same_path(p, ds[k].as_str()) || starts_with_path(p, ds[k].as_str()) {
            assert(path_eq(p@, views_of(ds@)[k as int]) || path_starts_with(p@, views_of(ds@)[k as int]));
            return true;
        }
        k = k + 1;
    }
    false
}

/// What `toggle_mark` does.
pub open spec fn toggle_mark_step(old_app: App, new_app: App) -> bool {
    &&& old_app.current_view != ViewMode::AllFiles ==> new_app == old_app
    &&& old_app.current_view == ViewMode::AllFiles ==> exists|r: Seq<usize>|
        is_browse_listing(r, old_app) && match old_app.list_selected {
            Some(s) => if s < r.len() {
                let i = r[s as int];
                let es = scan_entries(old_app);
                &&& new_app == (App {
                    marked_for_deletion: new_app.marked_for_deletion,
                    status_message: new_app.status_message,
                    ..old_app
                })
                &&& es[i as int].is_system ==> new_app.marked_for_deletion
                    == old_app.marked_for_deletion && new_app.status_message@
                    == "⚠️  Cannot mark system file"@
                &&& !es[i as int].is_system && old_app.marked_for_deletion@.contains(i)
                    ==> new_app.marked_for_deletion@ == without_first(
                    old_app.marked_for_deletion@,
                    i,
                ) && new_app.status_message@ == "Unmarked · "@ + decimal(
                    new_app.marked_for_deletion@.len(),
                ) + " selected"@
                &&& !es[i as int].is_system && !old_app.marked_for_deletion@.contains(i)
                    ==> new_app.marked_for_deletion@ == old_app.marked_for_deletion@.push(i) && new_app.status_message@
                    == "Marked · "@ + decimal(new_app.marked_for_deletion@.len())
                    + " selected"@
            } else {
                new_app == old_app
            },
            None => new_app == old_app,
        }
}

impl App {
    /// Marks the entry on the selected row of the browser for deletion, or
    /// unmarks it; system entries cannot be marked.
    pub fn toggle_mark(&mut self)
        requires
            size_sum(scan_entries(*old(self))) <= u64::MAX,
        ensures
            toggle_mark_step(*old(self), *final(self)),
    {
        if self.current_view != ViewMode::AllFiles {
            return;
        }
        let ghost a0 = *self;
        let current = self.get_current_entries();
        proof {
            assert(is_browse_listing(current@, a0));
        }
        match self.list_selected {
            Some(sel) => {
                if sel < current.len() {
                    let i = current[sel];
                    let is_system = match &self.scan_result {
                        Some(result) => result.entries[i].is_system,
                        None => false,
                    };
                    if is_system {
                        self.status_message = String::from_str("⚠️  Cannot mark system file");
                        return;
                    }
                    let was_marked = remove_first(&mut self.marked_for_deletion, i);
                    if was_marked {
                        let n = decimal_string(self.marked_for_deletion.len() as u64);
                        self.status_message = concat3("Unmarked · ", n.as_str(), " selected");
                    } else {
                        proof {
                            lemma_without_absent(old(self).marked_for_deletion@, i);
                        }
                        self.marked_for_deletion.push(i);
                        let n = decimal_string(self.marked_for_deletion.len() as u64);
                        self.status_message = concat3("Marked · ", n.as_str(), " selected");
                    }
                }
            },
            None => {},
        }
    }
}

/// What `delete_marked` did with `old_app`, giving `new_app` and `r`.
pub open spec fn delete_marked_step(old_app: App, new_app: App, r: Option<Seq<Seq<char>>>) -> bool {
    let es = scan_entries(old_app);
    let marked = old_app.marked_for_deletion@;
    let sys = marked_system(es, marked);
    if marked.len() == 0 {
        &&& r is None
        &&& new_app == (App { status_message: new_app.status_message, ..old_app })
        &&& new_app.status_message@ == "No items selected"@
    } else if old_app.scan_result is None {
        r is None && new_app == old_app
    } else if sys.len() > 0 {
        &&& r is None
        &&& new_app == (App {
            system_warning_message: new_app.system_warning_message,
            pending_system_deletions: new_app.pending_system_deletions,
            state: AppState::SystemWarning,
            ..old_app
        })
        &&& new_app.pending_system_deletions@ == sys
        &&& new_app.system_warning_message@ == warning_text(
            sys.len(),
            es[sys[0] as int].path@,
            system_warning(es[sys[0] as int].path@),
        )
    } else {
        r == Some(marked_paths(es, marked)) && new_app == old_app
    }
}

/// What `confirm_deletion` does, returning the paths `ps`.
pub open spec fn confirm_deletion_step(old_app: App, new_app: App, ps: Seq<Seq<char>>) -> bool {
    &&& ps =~= (if old_app.scan_result is Some {
        deletable_paths(scan_entries(old_app), old_app.marked_for_deletion@)
    } else {
        Seq::empty()
    })
    &&& old_app.scan_result is None ==> new_app == (App {
        state: AppState::Viewing,
        status_message: new_app.status_message,
        ..old_app
    }) && new_app.status_message@ == "Deleting..."@
    &&& old_app.scan_result is Some && ps.len() == 0 ==> new_app == (App {
        state: AppState::Viewing,
        status_message: new_app.status_message,
        ..old_app
    }) && new_app.status_message@ == "No deletable items"@
    &&& old_app.scan_result is Some && ps.len() > 0 ==> new_app == (App {
        state: AppState::Deleting,
        status_message: new_app.status_message,
        ..old_app
    }) && new_app.status_message@ == "Deleting..."@
}

impl App {
    /// Starts deleting the marked entries.  With nothing marked it says so;
    /// with system entries marked it raises the warning about them and holds
    /// them as pending; else it returns the paths of the marked entries,
    /// whose size the caller measures and hands to
    /// `ask_delete_confirmation`.
    pub fn delete_marked(&mut self) -> (r: Option<Vec<String>>)
        ensures
            delete_marked_step(
                *old(self),
                *final(self),
                match r {
                    Some(ps) => Some(views_of(ps@)),
                    None => None,
                },
            ),
    {
        if self.marked_for_deletion.len() == 0 {
            self.status_message = String::from_str("No items selected");
            return None;
        }
        let es: &[FileEntry] = match &self.scan_result {
            Some(result) => result.entries.as_slice(),
            None => {
                return None;
            },
        };
        assert(es@ == scan_entries(*self));
        let marked = &self.marked_for_deletion;
        let mut system_files: Vec<usize> = Vec::new();
        let mut paths: Vec<String> = Vec::new();
        let mut k: usize = 0;
        while k < marked.len()
            invariant
                k <= marked@.len(),
                es@ == scan_entries(*self),
                system_files@ == marked_system_upto(es@, marked@, k as nat),
                forall|p: int| 0 <= p < system_files@.len() ==> #[trigger] system_files@[p] < es@.len(),
                views_of(paths@) == marked_paths_upto(es@, marked@, k as nat),
            decreases marked@.len() - k,
        {
            let i = marked[k];
            if i < es.len() {
                if es[i].is_system {
                    system_files.push(i);
                }
                paths.push(es[i].path.clone());
                assert(views_of(paths@) =~= marked_paths_upto(es@, marked@, (k + 1) as nat));
            }
            k = k + 1;
        }
        if system_files.len() > 0 {
            let first = &es[system_files[0]];
            let count = decimal_string(system_files.len() as u64);
            let warning = match get_system_warning(first.path.as_str()) {
                Some(w) => w,
                None => String::from_str("Critical system file"),
            };
            let head = concat5(
                "🛑 SYSTEM FILE WARNING\n\n",
                count.as_str(),
                " system file(s) selected\n\n",
                first.path.as_str(),
                "\n\n",
            );
            self.system_warning_message = concat3(
                head.as_str(),
                warning.as_str(),
                "\n\nPress Y to proceed (dangerous) or N to cancel",
            );
            self.pending_system_deletions = system_files;
            self.state = AppState::SystemWarning;
            return None;
        }
        Some(paths)
    }

    /// Asks to confirm deleting `count` items that free `freed` bytes.
    pub fn ask_delete_confirmation(&mut self, count: usize, freed: u64)
        ensures
            *final(self) == (App {
                status_message: final(self).status_message,
                state: AppState::Confirmation,
                ..*old(self)
            }),
            final(self).status_message@ == "Delete "@ + decimal(count as nat) + " items? Free "@
                + human_size(freed) + " · Press Y to confirm, N to cancel"@,
    {
        let n = decimal_string(count as u64);
        let size = human(freed);
        self.status_message = concat5(
            "Delete ",
            n.as_str(),
            " items? Free ",
            size.as_str(),
            " · Press Y to confirm, N to cancel",
        );
        self.state = AppState::Confirmation;
    }

    /// The paths of the marked scanned entries that are not system entries.
    pub fn planned_deletions(&self) -> (ps: Vec<String>)
        ensures
            views_of(ps@) == deletable_paths(scan_entries(*self), self.marked_for_deletion@),
    {
        let mut ps: Vec<String> = Vec::new();
        match &self.scan_result {
            Some(result) => {
                let es = result.entries.as_slice();
                let marked = &self.marked_for_deletion;
                let mut k: usize = 0;
                while k < marked.len()
                    invariant
                        k <= marked@.len(),
                        es@ == scan_entries(*self),
                        views_of(ps@) == deletable_upto(es@, marked@, k as nat),
                    decreases marked@.len() - k,
                {
                    let i = marked[k];
                    if i < es.len() && !es[i].is_system {
                        ps.push(es[i].path.clone());
                        assert(views_of(ps@) =~= deletable_upto(es@, marked@, (k + 1) as nat));
                    }
                    k = k + 1;
                }
            },
            None => {
                proof {
                    assert forall|n: nat| n <= self.marked_for_deletion@.len() implies deletable_upto(
                        Seq::<FileEntry>::empty(),
                        self.marked_for_deletion@,
                        n,
                    ) == Seq::<Seq<char>>::empty() by {
                        lemma_nothing_deletable(self.marked_for_deletion@, n);
                    }
                }
            },
        }
        ps
    }

    /// Starts deleting after the user confirmed: returns the paths to
    /// delete (those of `planned_deletions`), leaving the screen on
    /// "Deleting..."; or returns none and goes back to browsing where there
    /// is nothing to delete.
    pub fn confirm_deletion(&mut self) -> (ps: Vec<String>)
        ensures
            confirm_deletion_step(*old(self), *final(self), views_of(ps@)),
    {
        self.state = AppState::Deleting;
        self.status_message = String::from_str("Deleting...");
        if self.scan_result.is_none() {
            self.state = AppState::Viewing;
            return Vec::new();
        }
        let ps = self.planned_deletions();
        if ps.len() == 0 {
            self.status_message = String::from_str("No deletable items");
            self.state = AppState::Viewing;
        }
        ps
    }

    /// Takes in the outcome of deleting the planned paths: `Ok` with whether
    /// each path of `planned_deletions` was deleted, or `Err` with the
    /// error's text.  On success the entries at or under the deleted paths
    /// leave the scan, the categories and advice are worked out again, the
    /// marks are cleared, `storage` becomes the storage figures, and the
    /// selection is kept within the listing.  The interface goes back to
    /// browsing.
    pub fn finish_deletion(&mut self, outcome: Result<Vec<bool>, String>, storage: StorageInfo)
        requires
            old(self).scan_result is Some,
            size_sum(scan_entries(*old(self))) <= u64::MAX,
            match outcome {
                Ok(done) => done@.len() == deletable_paths(
                    scan_entries(*old(self)),
                    old(self).marked_for_deletion@,
                ).len(),
                Err(_) => true,
            },
        ensures
            outcome matches Err(e) ==> *final(self) == (App {
                state: AppState::Viewing,
                status_message: final(self).status_message,
                ..*old(self)
            }) && final(self).status_message@ == "✗ Error: "@ + e@,
            outcome matches Ok(done) ==> {
                    let ps = deletable_paths(scan_entries(*old(self)), old(self).marked_for_deletion@);
                    let gone = succeeded_upto(ps, done@, ps.len());
                    let left = remaining(scan_entries(*old(self)), gone);
                    &&& *final(self) == (App {
                        scan_result: final(self).scan_result,
                        categories: final(self).categories,
                        recommendations: final(self).recommendations,
                        marked_for_deletion: final(self).marked_for_deletion,
                        storage_info: storage,
                        list_selected: final(self).list_selected,
                        status_message: final(self).status_message,
                        state: AppState::Viewing,
                        ..*old(self)
                    })
                    &&& final(self).scan_result is Some
                    &&& scan_entries(*final(self)) == left
                    &&& exists|now: i64| groups_match(final(self).categories@, groups_of(left, categories_of(left, now)))
                    &&& exists|now: i64| string_views(final(self).recommendations@) == #[trigger] recommendation_lines(
                        left,
                        categories_of(left, now),
                        top_directory(left),
                    )
                    &&& final(self).marked_for_deletion@.len() == 0
                    &&& final(self).list_selected == if left.len() == 0 {
                        None
                    } else {
                        match old(self).list_selected {
                            Some(s) => if s >= browse_count(*final(self)) {
                                Some(
                                    (if browse_count(*final(self)) > 0 {
                                        browse_count(*final(self)) - 1
                                    } else {
                                        0
                                    }) as usize,
                                )
                            } else {
                                Some(s)
                            },
                            None => None,
                        }
                    }
                    &&& final(self).status_message@ == deleted_note(gone.len(), (done@.len() - gone.len()) as nat)
            },
    {
        let ps = self.planned_deletions();
        match outcome {
            Err(e) => {
                self.status_message = concat2("✗ Error: ", e.as_str());
                self.state = AppState::Viewing;
                assert(self.status_message@ == "✗ Error: "@ + e@);
                assert(*self == (App {
                    state: AppState::Viewing,
                    status_message: self.status_message,
                    ..*old(self)
                }));
            },
            Ok(done) => {
                let mut gone: Vec<String> = Vec::new();
                let mut k: usize = 0;
                while k < ps.len()
                    invariant
                        k <= ps@.len(),
                        done@.len() == ps@.len(),
                        views_of(gone@) == succeeded_upto(views_of(ps@), done@, k as nat),
                        gone@.len() <= k,
                    decreases ps@.len() - k,
                {
                    if done[k] {
                        gone.push(ps[k].clone());
                        assert(views_of(gone@) =~= succeeded_upto(views_of(ps@), done@, (k + 1) as nat));
                    }
                    k = k + 1;
                }
                let ghost es0 = scan_entries(*self);
                let mut kept: Vec<FileEntry> = Vec::new();
                match &self.scan_result {
                    Some(result) => {
                        let es = result.entries.as_slice();
                        let mut i: usize = 0;
                        while i < es.len()
                            invariant
                                i <= es@.len(),
                                es@ == es0,
                                kept@ == remaining_upto(es@, views_of(gone@), i as nat),
                            decreases es@.len() - i,
                        {
                            if !is_gone(es[i].path.as_str(), &gone) {
                                kept.push(es[i].duplicate());
                            }
                            i = i + 1;
                        }
                    },
                    None => {},
                }
                proof {
                    lemma_remaining_bounded(es0, views_of(gone@), es0.len());
                    lemma_take_all(es0);
                }
                let ghost kept_view = kept@;
                self.categories = Analyzer::group_by_category(kept.as_slice());
                self.recommendations = Analyzer::get_recommendations(kept.as_slice());
                self.marked_for_deletion = Vec::new();
                self.storage_info = storage;
                let left_empty = kept.len() == 0;
                self.scan_result = Some(ScanResult { entries: kept });
                let ghost mid = *self;
                if left_empty {
                    self.list_selected = None;
                } else {
                    match self.list_selected {
                        Some(selected) => {
                            let count = self.get_current_entries().len();
                            proof {
                                assert(count == browse_count(mid));
                            }
                            if selected >= count {
                                self.list_selected = Some(if count > 0 { count - 1 } else { 0 });
                            }
                        },
                        None => {},
                    }
                }
                let ok = decimal_string(gone.len() as u64);
                let failed_count = done.len() - gone.len();
                if failed_count > 0 {
                    let failed = decimal_string(failed_count as u64);
                    self.status_message = concat5(
                        "✓ Deleted ",
                        ok.as_str(),
                        " · ✗ ",
                        failed.as_str(),
                        " failed",
                    );
                } else {
                    self.status_message = concat3("✓ Deleted ", ok.as_str(), " items");
                }
                self.state = AppState::Viewing;
                proof {
                    lemma_browse_same(mid, *self, scan_entries(mid).len());
                    assert(scan_entries(*self) == kept_view);
                }
            },
        }
    }
}

/// Apps that agree on the scan, the current folder, the hidden setting and
/// the search text show the same entries in the browser.
pub proof fn lemma_browse_same(a: App, b: App, n: nat)
    requires
        scan_entries(a) == scan_entries(b),
        a.current_path == b.current_path,
        a.show_hidden == b.show_hidden,
        a.browse_search_query == b.browse_search_query,
    ensures
        browse_count_upto(a, n) == browse_count_upto(b, n),
    decreases n,
{
    if n > 0 {
        lemma_browse_same(a, b, (n - 1) as nat);
        assert(browse_shown(a, n - 1) == browse_shown(b, n - 1));
    }
}

proof fn lemma_nothing_deletable(marked: Seq<usize>, n: nat)
    requires
        n <= marked.len(),
    ensures
        deletable_upto(Seq::<FileEntry>::empty(), marked, n) == Seq::<Seq<char>>::empty(),
    decreases n,
{
    if n > 0 {
        lemma_nothing_deletable(marked, (n - 1) as nat);
    }
}

proof fn lemma_remaining_upto(es: Seq<FileEntry>, ds: Seq<Seq<char>>, n: nat)
    requires
        n <= es.len(),
    ensures
        forall|k: int|
            0 <= k < remaining_upto(es, ds, n).len() ==> !gone_with(
                (#[trigger] remaining_upto(es, ds, n)[k]).path@,
                ds,
            ) && es.take(n as int).contains(remaining_upto(es, ds, n)[k]),
        forall|i: int| 0 <= i < n && !gone_with(es[i].path@, ds) ==> remaining_upto(es, ds, n).contains(#[trigger] es[i]),
    decreases n,
{
    if n > 0 {
        let m = (n - 1) as nat;
        lemma_remaining_upto(es, ds, m);
        let prev = remaining_upto(es, ds, m);
        let cur = remaining_upto(es, ds, n);
        assert forall|k: int| 0 <= k < cur.len() implies !gone_with((#[trigger] cur[k]).path@, ds)
            && es.take(n as int).contains(cur[k]) by {
            if k < prev.len() {
                assert(cur[k] == prev[k]);
                let q = choose|q: int| 0 <= q < es.take(m as int).len() && es.take(m as int)[q] == prev[k];
                assert(es.take(n as int)[q] == prev[k]);
            } else {
                assert(cur[k] == es[m as int]);
                assert(es.take(n as int)[m as int] == es[m as int]);
            }
        }
        assert forall|i: int| 0 <= i < n && !gone_with(es[i].path@, ds) implies cur.contains(#[trigger] es[i]) by {
            if i < m {
                let q = choose|q: int| 0 <= q < prev.len() && prev[q] == es[i];
                assert(cur[q] == es[i]);
            } else {
                assert(cur[prev.len() as int] == es[i]);
            }
        }
    }
}

/// After a deletion in the terminal interface, exactly the entries at or
/// under a deleted path leave the scan: none that remains lies under one,
/// every entry under none remains, and nothing else appears.
pub proof fn law_deleted_entries_leave_scan(es: Seq<FileEntry>, ds: Seq<Seq<char>>)
    ensures
        forall|k: int|
            0 <= k < remaining(es, ds).len() ==> !gone_with((#[trigger] remaining(es, ds)[k]).path@, ds)
                && es.contains(remaining(es, ds)[k]),
        forall|i: int| 0 <= i < es.len() && !gone_with(es[i].path@, ds) ==> remaining(es, ds).contains(#[trigger] es[i]),
{
    lemma_remaining_upto(es, ds, es.len());
    assert(es.take(es.len() as int) =~= es);
}

/// Marking an unmarked entry and then unmarking it leaves the marks as they
/// were.
pub proof fn law_mark_then_unmark(marked: Seq<usize>, i: usize)
    requires
        !marked.contains(i),
    ensures
        without_first(marked.push(i), i) == marked,
    decreases marked.len(),
{
    if marked.len() > 0 {
        assert(!marked.drop_first().contains(i)) by {
            if marked.drop_first().contains(i) {
                let q = choose|q: int| 0 <= q < marked.drop_first().len() && marked.drop_first()[q] == i;
                assert(marked[q + 1] == i);
            }
        }
        law_mark_then_unmark(marked.drop_first(), i);
        assert(marked.push(i).drop_first() =~= marked.drop_first().push(i));
        assert(marked =~= seq![marked[0]] + marked.drop_first());
    } else {
        assert(marked.push(i).drop_first() =~= marked);
    }
}

} // verus!
