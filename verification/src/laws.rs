//! The collector's general laws, stated over the same spec functions that
//! `collect_and_filter`'s contract uses and proved once and for all:
//! accounting of the processed files, soundness of every inclusion,
//! transitivity of pruning, strict sortedness of the file list, and
//! determinism of the whole collection result.
use vstd::prelude::*;
use vstd::relations::sorted_by;
use vstd::seq_lib::group_to_multiset_ensures;
use vstd::seq_lib::lemma_sorted_unique;

use crate::filters::{
    collection_ok, entry_included, ext_allowed, included_paths, included_pred, is_text,
    rejected_pred, FileEntryView, FilterStatsView, RuleSetView,
};
use crate::globs::excluded_by;
use crate::order::{chars_le, lemma_str_le_total_ordering, str_le_order};

verus! {

/// Law: every processed file is accounted for exactly once: the number of
/// included files plus the number of files rejected at any filtering stage
/// equals the number of files processed.
pub proof fn lemma_processed_accounted(rs: RuleSetView, es: Seq<FileEntryView>)
    ensures
        included_paths(rs, es).len() + es.filter(rejected_pred(rs)).len() == es.len(),
    decreases es.len(),
{
    reveal(Seq::filter);
    if es.len() > 0 {
        lemma_processed_accounted(rs, es.drop_last());
        assert(included_pred(rs)(es.last()) == entry_included(rs, es.last()));
        assert(rejected_pred(rs)(es.last()) == !entry_included(rs, es.last()));
    }
}

/// Law: every included file comes from an accepted entry: one whose probe
/// shows text, whose basename no exclusion pattern matches, and whose
/// extension the allowlist admits (or that is literally named `Gemfile`).
pub proof fn lemma_included_files_accepted(rs: RuleSetView, es: Seq<FileEntryView>, p: Seq<char>)
    requires
        included_paths(rs, es).contains(p),
    ensures
        exists|k: int|
            0 <= k < es.len() && (#[trigger] es[k]).path == p && is_text(es[k].probe)
                && !excluded_by(rs.exclude_patterns, es[k].name) && ext_allowed(
                rs.allowed_extensions,
                es[k].name,
            ),
{
    broadcast use vstd::seq_lib::group_filter_ensures;
    broadcast use Seq::<FileEntryView>::lemma_filter_contains_rev;

    let fs = es.filter(included_pred(rs));
    let ps = included_paths(rs, es);
    let j = choose|j: int| 0 <= j < ps.len() && ps[j] == p;
    assert(ps[j] == fs[j].path);
    assert(included_pred(rs)(fs[j]));
    assert(fs.contains(fs[j]));
    assert(es.contains(fs[j]));
    let k = choose|k: int| 0 <= k < es.len() && es[k] == fs[j];
    assert(es[k].path == p && entry_included(rs, es[k]));
}

/// Law: pruning is transitive through the collection. The walk withholds
/// every file under a pruned directory, so such files never stand among
/// the entries; this law lifts any property of all entry paths — for
/// instance "not under a pruned directory" — to every included file, and
/// the total equals the number of entries, so withheld files are neither
/// listed nor counted.
pub proof fn lemma_pruning_transitive(
    rs: RuleSetView,
    es: Seq<FileEntryView>,
    q: spec_fn(Seq<char>) -> bool,
)
    requires
        forall|k: int| 0 <= k < es.len() ==> q((#[trigger] es[k]).path),
    ensures
        forall|j: int|
            0 <= j < included_paths(rs, es).len() ==> q(#[trigger] included_paths(rs, es)[j]),
{
    broadcast use vstd::seq_lib::group_filter_ensures;
    broadcast use Seq::<FileEntryView>::lemma_filter_contains_rev;

    let fs = es.filter(included_pred(rs));
    let ps = included_paths(rs, es);
    assert forall|j: int| 0 <= j < ps.len() implies q(#[trigger] ps[j]) by {
        assert(ps[j] == fs[j].path);
        assert(fs.contains(fs[j]));
        assert(es.contains(fs[j]));
        let k = choose|k: int| 0 <= k < es.len() && es[k] == fs[j];
        assert(q(es[k].path));
    }
}

/// Every path occurs in the included files at most as often as among the
/// entries: the collection invents no occurrence.
proof fn lemma_included_paths_counts(rs: RuleSetView, es: Seq<FileEntryView>, x: Seq<char>)
    ensures
        included_paths(rs, es).to_multiset().count(x) <= es.map_values(
            |e: FileEntryView| e.path,
        ).to_multiset().count(x),
    decreases es.len(),
{
    broadcast use group_to_multiset_ensures;
    broadcast use vstd::multiset::group_multiset_axioms;

    reveal(Seq::filter);
    let path_of = |e: FileEntryView| e.path;
    if es.len() == 0 {
        assert(es.filter(included_pred(rs)).map_values(path_of) =~= Seq::<Seq<char>>::empty());
        assert(es.map_values(path_of) =~= Seq::<Seq<char>>::empty());
    } else {
        let pre = es.drop_last();
        let last = es.last();
        lemma_included_paths_counts(rs, pre, x);
        assert(es.map_values(path_of) =~= pre.map_values(path_of).push(last.path));
        if included_pred(rs)(last) {
            assert(included_paths(rs, es) =~= included_paths(rs, pre).push(last.path));
        } else {
            assert(included_paths(rs, es) =~= included_paths(rs, pre));
        }
    }
}

/// Law: when the entry paths are pairwise distinct — as one traversal of a
/// file tree yields them — the included file list is strictly sorted:
/// in lexicographic order and free of duplicates.
pub proof fn lemma_included_files_strictly_sorted(
    rs: RuleSetView,
    es: Seq<FileEntryView>,
    files: Seq<Seq<char>>,
)
    requires
        es.map_values(|e: FileEntryView| e.path).no_duplicates(),
        files.to_multiset() == included_paths(rs, es).to_multiset(),
        sorted_by(files, str_le_order()),
    ensures
        files.no_duplicates(),
        forall|i: int, j: int|
            0 <= i < j < files.len() ==> chars_le(files[i], files[j]) && files[i] != files[j],
{
    broadcast use group_to_multiset_ensures;

    let path_of = |e: FileEntryView| e.path;
    let all_paths = es.map_values(path_of);
    all_paths.lemma_multiset_has_no_duplicates();
    assert forall|x: Seq<char>|
        files.to_multiset().contains(x) implies #[trigger] files.to_multiset().count(x) == 1 by {
        lemma_included_paths_counts(rs, es, x);
        assert(included_paths(rs, es).to_multiset().count(x) > 0);
        assert(all_paths.to_multiset().count(x) > 0);
        assert(all_paths.contains(x));
        assert(all_paths.to_multiset().count(x) == 1);
    }
    files.lemma_multiset_has_no_duplicates_conv();
    assert forall|i: int, j: int| 0 <= i < j < files.len() implies chars_le(files[i], files[j])
        && files[i] != files[j] by {
        let le = str_le_order();
        assert(le(files[i], files[j]));
    }
}

/// Two sorted duplicate-free listings of the same set are the same listing.
pub proof fn lemma_sorted_distinct_set_unique(x: Seq<Seq<char>>, y: Seq<Seq<char>>)
    requires
        sorted_by(x, str_le_order()),
        sorted_by(y, str_le_order()),
        x.no_duplicates(),
        y.no_duplicates(),
        x.to_set() == y.to_set(),
    ensures
        x == y,
{
    broadcast use group_to_multiset_ensures;

    x.lemma_multiset_has_no_duplicates();
    y.lemma_multiset_has_no_duplicates();
    assert forall|e: Seq<char>| true implies #[trigger] x.to_multiset().count(e)
        == y.to_multiset().count(e) by {
        if x.contains(e) {
            assert(x.to_set().contains(e));
            assert(y.to_set().contains(e));
            assert(y.contains(e));
            assert(x.to_multiset().count(e) == 1 && y.to_multiset().count(e) == 1);
        } else {
            assert(!x.to_set().contains(e));
            assert(!y.to_set().contains(e));
            assert(!y.contains(e));
            assert(x.to_multiset().count(e) == 0 && y.to_multiset().count(e) == 0);
        }
    }
    assert(x.to_multiset() =~= y.to_multiset());
    lemma_str_le_total_ordering();
    lemma_sorted_unique(x, y, str_le_order());
}

/// Law: the collection result is a function of the rule set and the
/// traversal entries alone. Two results that `collect_and_filter`'s
/// contract admits for the same rule set over the same unchanged entries
/// are identical: the collector is idempotent.
pub proof fn lemma_collection_deterministic(
    rs: RuleSetView,
    es: Seq<FileEntryView>,
    a: FilterStatsView,
    b: FilterStatsView,
)
    requires
        collection_ok(rs, es, a),
        collection_ok(rs, es, b),
    ensures
        a == b,
{
    lemma_str_le_total_ordering();
    lemma_sorted_unique(a.included_files, b.included_files, str_le_order());
    lemma_sorted_distinct_set_unique(a.included_extensions, b.included_extensions);
    lemma_sorted_distinct_set_unique(a.filtered_out_extensions, b.filtered_out_extensions);
    assert(a =~= b);
}

} // verus!
