//! Plain-language cleanup advice from a whole scan.
use vstd::prelude::*;
use crate::analyzer::category::FileCategory;
use crate::analyzer::analysis::{
    Analyzer, size_sum, categories_of, members, members_upto, directory_keys, directory_totals,
    dir_total, is_top_directories, lemma_size_sum_prefix,
};
use crate::models::FileEntry;
use crate::sorting::{comes_before, is_order_of, follows_keys, lists};
use crate::text::{decimal, decimal_string, human, human_size, concat3, concat5};
use crate::clock::unix_now;

verus! {

/// Log files using more than this many bytes are worth a note.
pub const LOG_NOTE_BYTES: u64 = 52428800;

/// Downloads using more than this many bytes are worth a note.
pub const DOWNLOADS_NOTE_BYTES: u64 = 524288000;

/// Archives using more than this many bytes are worth a note.
pub const ARCHIVES_NOTE_BYTES: u64 = 209715200;

/// The number of entries of category `c`.
pub open spec fn count_in(es: Seq<FileEntry>, cs: Seq<FileCategory>, c: FileCategory) -> nat {
    members(es, cs, c).len()
}

/// The total size of the entries of category `c`.
pub open spec fn size_in(es: Seq<FileEntry>, cs: Seq<FileCategory>, c: FileCategory) -> nat {
    size_sum(members(es, cs, c))
}

/// Directory `j` of `directory_keys` holds the most (ties: earliest first).
pub open spec fn is_top_index(es: Seq<FileEntry>, j: int) -> bool {
    let d = directory_keys(es);
    let t = directory_totals(es);
    0 <= j < d.len() && forall|q: int|
        0 <= q < d.len() && q != j ==> #[trigger] comes_before(t[j], j, t[q], q, true)
}

/// The directory that directly holds the most bytes of files, with its total.
pub open spec fn top_directory(es: Seq<FileEntry>) -> Option<(Seq<char>, nat)> {
    if directory_keys(es).len() == 0 {
        None
    } else {
        let j = choose|j: int| is_top_index(es, j);
        Some((directory_keys(es)[j], dir_total(es, directory_keys(es)[j])))
    }
}

/// `line` if `cond`, else nothing.
pub open spec fn line_if(cond: bool, line: Seq<char>) -> Seq<Seq<char>> {
    if cond {
        seq![line]
    } else {
        seq![]
    }
}

/// The note on the largest directory.
pub open spec fn largest_part(top: Option<(Seq<char>, nat)>) -> Seq<Seq<char>> {
    match top {
        Some((d, t)) => seq!["📂 Largest directory: "@ + d + " ("@ + human_size(t as u64) + ")"@],
        None => seq![],
    }
}

/// The note on system files.
pub open spec fn system_part(es: Seq<FileEntry>, cs: Seq<FileCategory>) -> Seq<Seq<char>> {
    line_if(
        count_in(es, cs, FileCategory::SystemFiles) > 0,
        "🛑 "@ + decimal(count_in(es, cs, FileCategory::SystemFiles))
            + " system files found - DO NOT DELETE"@,
    )
}

/// The note on hidden files.
pub open spec fn hidden_part(es: Seq<FileEntry>, cs: Seq<FileCategory>) -> Seq<Seq<char>> {
    line_if(
        count_in(es, cs, FileCategory::HiddenFiles) > 0,
        "👁️ "@ + decimal(count_in(es, cs, FileCategory::HiddenFiles)) + " hidden files using "@
            + human_size(size_in(es, cs, FileCategory::HiddenFiles) as u64) + " - review carefully"@,
    )
}

/// The note on node_modules.
pub open spec fn node_modules_part(es: Seq<FileEntry>, cs: Seq<FileCategory>) -> Seq<Seq<char>> {
    line_if(
        count_in(es, cs, FileCategory::NodeModules) > 0,
        "📦 "@ + decimal(count_in(es, cs, FileCategory::NodeModules)) + " node_modules entries using "@
            + human_size(size_in(es, cs, FileCategory::NodeModules) as u64) + " - safe to delete"@,
    )
}

/// The note on caches.
pub open spec fn cache_part(es: Seq<FileEntry>, cs: Seq<FileCategory>) -> Seq<Seq<char>> {
    line_if(
        count_in(es, cs, FileCategory::Cache) > 0,
        "🗑️ Cache files using "@ + human_size(size_in(es, cs, FileCategory::Cache) as u64)
            + " - safe to delete"@,
    )
}

/// The note on build outputs.
pub open spec fn build_part(es: Seq<FileEntry>, cs: Seq<FileCategory>) -> Seq<Seq<char>> {
    line_if(
        count_in(es, cs, FileCategory::BuildArtifacts) > 0,
        "🔨 Build artifacts using "@ + human_size(size_in(es, cs, FileCategory::BuildArtifacts) as u64)
            + " - can be regenerated"@,
    )
}

/// The note on logs, when they use more than 50 MiB.
pub open spec fn log_part(es: Seq<FileEntry>, cs: Seq<FileCategory>) -> Seq<Seq<char>> {
    line_if(
        count_in(es, cs, FileCategory::LogFiles) > 0 && size_in(es, cs, FileCategory::LogFiles)
            > LOG_NOTE_BYTES,
        "📜 Log files using "@ + human_size(size_in(es, cs, FileCategory::LogFiles) as u64)
            + " - consider cleaning"@,
    )
}

/// The note on duplicate names.
pub open spec fn duplicate_part(es: Seq<FileEntry>, cs: Seq<FileCategory>) -> Seq<Seq<char>> {
    line_if(
        count_in(es, cs, FileCategory::DuplicateName) > 0,
        "👯 "@ + decimal(count_in(es, cs, FileCategory::DuplicateName))
            + " files with duplicate names - review for duplicates"@,
    )
}

/// The note on downloads, when they use more than 500 MiB.
pub open spec fn downloads_part(es: Seq<FileEntry>, cs: Seq<FileCategory>) -> Seq<Seq<char>> {
    line_if(
        count_in(es, cs, FileCategory::Downloads) > 0 && size_in(es, cs, FileCategory::Downloads)
            > DOWNLOADS_NOTE_BYTES,
        "⬇️ Downloads using "@ + human_size(size_in(es, cs, FileCategory::Downloads) as u64)
            + " - review and clean"@,
    )
}

/// The note on archives, when they use more than 200 MiB.
pub open spec fn archives_part(es: Seq<FileEntry>, cs: Seq<FileCategory>) -> Seq<Seq<char>> {
    line_if(
        count_in(es, cs, FileCategory::Archives) > 0 && size_in(es, cs, FileCategory::Archives)
            > ARCHIVES_NOTE_BYTES,
        "🗜️ Archives using "@ + human_size(size_in(es, cs, FileCategory::Archives) as u64)
            + " - may be extractable or deletable"@,
    )
}

/// The advice for a scan whose entries have the categories `cs`, given its
/// largest directory: one note per condition, in a fixed order.
pub open spec fn recommendation_lines(
    es: Seq<FileEntry>,
    cs: Seq<FileCategory>,
    top: Option<(Seq<char>, nat)>,
) -> Seq<Seq<char>> {
    largest_part(top) + system_part(es, cs) + hidden_part(es, cs) + node_modules_part(es, cs)
        + cache_part(es, cs) + build_part(es, cs) + log_part(es, cs) + duplicate_part(es, cs)
        + downloads_part(es, cs) + archives_part(es, cs)
}

/// The characters of each string.
pub open spec fn string_views(v: Seq<String>) -> Seq<Seq<char>> {
    v.map_values(|s: String| s@)
}

proof fn lemma_members_size_bounded(es: Seq<FileEntry>, cs: Seq<FileCategory>, c: FileCategory, n: nat)
    requires
        n <= es.len(),
    ensures
        size_sum(members_upto(es, cs, c, n)) <= size_sum(es.take(n as int)),
    decreases n,
{
    if n > 0 {
        lemma_members_size_bounded(es, cs, c, (n - 1) as nat);
        assert(es.take(n as int).drop_last() =~= es.take(n - 1));
        if cs[n - 1] == c {
            assert(members_upto(es, cs, c, n).drop_last() =~= members_upto(es, cs, c, (n - 1) as nat));
        }
    }
}

/// From the sorted directory list, its first item is the top directory.
proof fn lemma_first_is_top(es: Seq<FileEntry>, r: Seq<(String, u64)>)
    requires
        is_top_directories(r, es),
        directory_keys(es).len() > 0,
    ensures
        r.len() > 0,
        top_directory(es) == Some((r[0].0@, r[0].1 as nat)),
{
    let d = directory_keys(es);
    let t = directory_totals(es);
    let order = choose|order: Seq<usize>|
        #[trigger] is_order_of(order, d.len()) && follows_keys(order, t, true)
            && r.len() == (if d.len() < 20 { d.len() } else { 20 as nat })
            && forall|i: int|
            0 <= i < r.len() ==> (#[trigger] r[i]).0@ == d[order[i] as int] && r[i].1 == dir_total(
                es,
                d[order[i] as int],
            );
    let j0 = order[0] as int;
    assert(is_top_index(es, j0)) by {
        assert forall|q: int| 0 <= q < d.len() && q != j0 implies #[trigger] comes_before(
            t[j0],
            j0,
            t[q],
            q,
            true,
        ) by {
            assert(lists(order, q));
            let p = choose|p: int| 0 <= p < order.len() && order[p] as int == q;
            assert(p != 0);
        }
    }
    let j = choose|j: int| is_top_index(es, j);
    if j != j0 {
        assert(comes_before(t[j], j, t[j0], j0, true));
        assert(comes_before(t[j0], j0, t[j], j, true));
        assert(false);
    }
}

/// Moves the lines of `more` to the end of `recs`.
pub fn append_lines(recs: &mut Vec<String>, more: &mut Vec<String>)
    ensures
        string_views(final(recs)@) == string_views(old(recs)@) + string_views(old(more)@),
{
    let ghost a = old(recs)@;
    let ghost b = old(more)@;
    recs.append(more);
    assert(string_views(recs@) =~= string_views(a) + string_views(b));
}

proof fn lemma_members_len(es: Seq<FileEntry>, cs: Seq<FileCategory>, c: FileCategory, n: nat)
    ensures
        members_upto(es, cs, c, n).len() <= n,
    decreases n,
{
    if n > 0 {
        lemma_members_len(es, cs, c, (n - 1) as nat);
    }
}

impl Analyzer {
    /// The number and total size of the entries of category `c`.
    pub fn category_totals(entries: &[FileEntry], cs: &Vec<FileCategory>, c: FileCategory) -> (r: (usize, u64))
        requires
            cs@.len() == entries@.len(),
            size_sum(entries@) <= u64::MAX,
        ensures
            r.0 == count_in(entries@, cs@, c),
            r.1 == size_in(entries@, cs@, c),
    {
        let mut count: usize = 0;
        let mut total: u64 = 0;
        let mut i: usize = 0;
        while i < entries.len()
            invariant
                i <= entries@.len(),
                cs@.len() == entries@.len(),
                size_sum(entries@) <= u64::MAX,
                count == members_upto(entries@, cs@, c, i as nat).len(),
                total == size_sum(members_upto(entries@, cs@, c, i as nat)),
            decreases entries@.len() - i,
        {
            proof {
                lemma_members_size_bounded(entries@, cs@, c, (i + 1) as nat);
                lemma_members_len(entries@, cs@, c, i as nat);
                lemma_size_sum_prefix(entries@, (i + 1) as nat);
            }
            if cs[i] == c {
                let ghost m = members_upto(entries@, cs@, c, (i + 1) as nat);
                assert(m.drop_last() =~= members_upto(entries@, cs@, c, i as nat));
                count = count + 1;
                total = total + entries[i].size;
            }
            i = i + 1;
        }
        (count, total)
    }

    /// The note on the largest directory.
    fn largest_note(entries: &[FileEntry]) -> (r: Vec<String>)
        requires
            size_sum(entries@) <= u64::MAX,
        ensures
            string_views(r@) == largest_part(top_directory(entries@)),
    {
        let mut recs: Vec<String> = Vec::new();
        let large_dirs = Self::find_large_directories(entries);
        if large_dirs.len() > 0 {
            proof {
                if directory_keys(entries@).len() == 0 {
                    assert(large_dirs@.len() == 0);
                }
                lemma_first_is_top(entries@, large_dirs@);
            }
            let h = human(large_dirs[0].1);
            recs.push(concat5("📂 Largest directory: ", large_dirs[0].0.as_str(), " (", h.as_str(), ")"));
        } else {
            proof {
                if directory_keys(entries@).len() > 0 {
                    lemma_first_is_top(entries@, large_dirs@);
                }
            }
        }
        assert(string_views(recs@) =~= largest_part(top_directory(entries@)));
        recs
    }

    /// The note on a category whose entries' count is reported, or none.
    fn count_note(entries: &[FileEntry], cs: &Vec<FileCategory>, c: FileCategory) -> (r: Vec<String>)
        requires
            cs@.len() == entries@.len(),
            size_sum(entries@) <= u64::MAX,
            c == FileCategory::SystemFiles || c == FileCategory::DuplicateName,
        ensures
            c == FileCategory::SystemFiles ==> string_views(r@) == system_part(entries@, cs@),
            c == FileCategory::DuplicateName ==> string_views(r@) == duplicate_part(entries@, cs@),
    {
        let mut r: Vec<String> = Vec::new();
        let (n, _s) = Self::category_totals(entries, cs, c);
        if n > 0 {
            let count = decimal_string(n as u64);
            if c == FileCategory::SystemFiles {
                r.push(concat3("🛑 ", count.as_str(), " system files found - DO NOT DELETE"));
            } else {
                r.push(concat3("👯 ", count.as_str(), " files with duplicate names - review for duplicates"));
            }
        }
        assert(c == FileCategory::SystemFiles ==> string_views(r@) =~= system_part(entries@, cs@));
        assert(c == FileCategory::DuplicateName ==> string_views(r@) =~= duplicate_part(entries@, cs@));
        r
    }

    /// The note on a category whose entries' count and size are reported.
    fn count_size_note(entries: &[FileEntry], cs: &Vec<FileCategory>, c: FileCategory) -> (r: Vec<String>)
        requires
            cs@.len() == entries@.len(),
            size_sum(entries@) <= u64::MAX,
            c == FileCategory::HiddenFiles || c == FileCategory::NodeModules,
        ensures
            c == FileCategory::HiddenFiles ==> string_views(r@) == hidden_part(entries@, cs@),
            c == FileCategory::NodeModules ==> string_views(r@) == node_modules_part(entries@, cs@),
    {
        let mut r: Vec<String> = Vec::new();
        let (n, s) = Self::category_totals(entries, cs, c);
        if n > 0 {
            let count = decimal_string(n as u64);
            let h = human(s);
            if c == FileCategory::HiddenFiles {
                r.push(concat5("👁️ ", count.as_str(), " hidden files using ", h.as_str(), " - review carefully"));
            } else {
                r.push(concat5("📦 ", count.as_str(), " node_modules entries using ", h.as_str(), " - safe to delete"));
            }
        }
        assert(c == FileCategory::HiddenFiles ==> string_views(r@) =~= hidden_part(entries@, cs@));
        assert(c == FileCategory::NodeModules ==> string_views(r@) =~= node_modules_part(entries@, cs@));
        r
    }

    /// The note on a category whose entries' size is reported, when it
    /// exceeds `threshold` (0 for always).
    fn size_note(entries: &[FileEntry], cs: &Vec<FileCategory>, c: FileCategory, threshold: u64) -> (r: Vec<String>)
        requires
            cs@.len() == entries@.len(),
            size_sum(entries@) <= u64::MAX,
            c == FileCategory::Cache && threshold == 0 || c == FileCategory::BuildArtifacts && threshold == 0
                || c == FileCategory::LogFiles && threshold == LOG_NOTE_BYTES || c == FileCategory::Downloads
                && threshold == DOWNLOADS_NOTE_BYTES || c == FileCategory::Archives && threshold
                == ARCHIVES_NOTE_BYTES,
        ensures
            c == FileCategory::Cache ==> string_views(r@) == cache_part(entries@, cs@),
            c == FileCategory::BuildArtifacts ==> string_views(r@) == build_part(entries@, cs@),
            c == FileCategory::LogFiles ==> string_views(r@) == log_part(entries@, cs@),
            c == FileCategory::Downloads ==> string_views(r@) == downloads_part(entries@, cs@),
            c == FileCategory::Archives ==> string_views(r@) == archives_part(entries@, cs@),
    {
        let mut r: Vec<String> = Vec::new();
        let (n, s) = Self::category_totals(entries, cs, c);
        if n > 0 && (threshold == 0 || s > threshold) {
            let h = human(s);
            let line = match c {
                FileCategory::Cache => concat3("🗑️ Cache files using ", h.as_str(), " - safe to delete"),
                FileCategory::BuildArtifacts => concat3("🔨 Build artifacts using ", h.as_str(), " - can be regenerated"),
                FileCategory::LogFiles => concat3("📜 Log files using ", h.as_str(), " - consider cleaning"),
                FileCategory::Downloads => concat3("⬇️ Downloads using ", h.as_str(), " - review and clean"),
                _ => concat3("🗜️ Archives using ", h.as_str(), " - may be extractable or deletable"),
            };
            r.push(line);
        }
        assert(c == FileCategory::Cache ==> string_views(r@) =~= cache_part(entries@, cs@));
        assert(c == FileCategory::BuildArtifacts ==> string_views(r@) =~= build_part(entries@, cs@));
        assert(c == FileCategory::LogFiles ==> string_views(r@) =~= log_part(entries@, cs@));
        assert(c == FileCategory::Downloads ==> string_views(r@) =~= downloads_part(entries@, cs@));
        assert(c == FileCategory::Archives ==> string_views(r@) =~= archives_part(entries@, cs@));
        r
    }

    /// The advice for the entries, given their categories `cs`.
    pub fn recommendations_for(entries: &[FileEntry], cs: &Vec<FileCategory>) -> (recs: Vec<String>)
        requires
            cs@.len() == entries@.len(),
            size_sum(entries@) <= u64::MAX,
        ensures
            string_views(recs@) == recommendation_lines(entries@, cs@, top_directory(entries@)),
    {
        let mut recs = Self::largest_note(entries);
        let mut part = Self::count_note(entries, cs, FileCategory::SystemFiles);
        append_lines(&mut recs, &mut part);
        let mut part = Self::count_size_note(entries, cs, FileCategory::HiddenFiles);
        append_lines(&mut recs, &mut part);
        let mut part = Self::count_size_note(entries, cs, FileCategory::NodeModules);
        append_lines(&mut recs, &mut part);
        let mut part = Self::size_note(entries, cs, FileCategory::Cache, 0);
        append_lines(&mut recs, &mut part);
        let mut part = Self::size_note(entries, cs, FileCategory::BuildArtifacts, 0);
        append_lines(&mut recs, &mut part);
        let mut part = Self::size_note(entries, cs, FileCategory::LogFiles, LOG_NOTE_BYTES);
        append_lines(&mut recs, &mut part);
        let mut part = Self::count_note(entries, cs, FileCategory::DuplicateName);
        append_lines(&mut recs, &mut part);
        let mut part = Self::size_note(entries, cs, FileCategory::Downloads, DOWNLOADS_NOTE_BYTES);
        append_lines(&mut recs, &mut part);
        let mut part = Self::size_note(entries, cs, FileCategory::Archives, ARCHIVES_NOTE_BYTES);
        append_lines(&mut recs, &mut part);
        recs
    }

    /// The advice for the entries, by their categories at time `now`.
    pub fn get_recommendations_at(entries: &[FileEntry], now: i64) -> (recs: Vec<String>)
        requires
            size_sum(entries@) <= u64::MAX,
        ensures
            string_views(recs@) == recommendation_lines(
                entries@,
                categories_of(entries@, now),
                top_directory(entries@),
            ),
    {
        let cs = Self::categories_at(entries, now);
        Self::recommendations_for(entries, &cs)
    }

    /// The advice for the entries, judged now.
    pub fn get_recommendations(entries: &[FileEntry]) -> (recs: Vec<String>)
        requires
            size_sum(entries@) <= u64::MAX,
        ensures
            exists|now: i64|
                string_views(recs@) == #[trigger] recommendation_lines(
                    entries@,
                    categories_of(entries@, now),
                    top_directory(entries@),
                ),
    {
        let now = unix_now();
        Self::get_recommendations_at(entries, now)
    }
}

} // verus!
