//! What holds of every frontier, proved from the definitions that the
//! calculator's contract uses.

use crate::frontier::{
    bound_seen, candidates, frontier_names, frontier_of, is_live, is_replaced, is_skipped,
    kept_ranges, lower_bound, malformed_names, offers_range, on_frontier, replaces_name,
    skip_range_list, skips_name, FrontierView,
};
use crate::model::EntryView;
use crate::rank::{by_text, by_version, lemma_keyed_total, text_leq, version_leq};
use crate::text::Precedence;
use crate::version::{lemma_version_flip, normalized, version_le, version_order, VersionView};
use vstd::prelude::*;
use vstd::seq_lib::{to_multiset_contains, to_multiset_len};

verus! {

/// Every candidate among the first `n` entries is the name of one of them
/// that is on the frontier, and the name of each such entry is a candidate.
pub proof fn lemma_candidates(entries: Seq<EntryView>, current: VersionView, n: int)
    requires
        0 <= n <= entries.len(),
    ensures
        forall|x: Seq<char>|
            candidates(entries, current, n).contains(x) <==> exists|i: int|
                0 <= i < n && on_frontier(entries, current, #[trigger] entries[i]) && entries[i].name
                    == x,
    decreases n,
{
    if n > 0 {
        lemma_candidates(entries, current, n - 1);
        let before = candidates(entries, current, n - 1);
        let now = candidates(entries, current, n);
        let last = entries[n - 1];
        assert forall|x: Seq<char>| now.contains(x) <==> exists|i: int|
            0 <= i < n && on_frontier(entries, current, #[trigger] entries[i]) && entries[i].name
                == x by {
            if now.contains(x) {
                let k = choose|k: int| 0 <= k < now.len() && now[k] == x;
                if on_frontier(entries, current, last) && k == before.len() {
                    assert(on_frontier(entries, current, entries[n - 1]) && entries[n - 1].name == x);
                } else {
                    assert(before[k] == x);
                    assert(before.contains(x));
                    let i = choose|i: int|
                        0 <= i < n - 1 && on_frontier(entries, current, #[trigger] entries[i])
                            && entries[i].name == x;
                    assert(0 <= i < n && on_frontier(entries, current, entries[i]));
                }
            }
            if exists|i: int|
                0 <= i < n && on_frontier(entries, current, #[trigger] entries[i]) && entries[i].name
                    == x {
                let i = choose|i: int|
                    0 <= i < n && on_frontier(entries, current, #[trigger] entries[i])
                        && entries[i].name == x;
                if i == n - 1 {
                    assert(now[before.len() as int] == x);
                } else {
                    assert(before.contains(x));
                    let k = choose|k: int| 0 <= k < before.len() && before[k] == x;
                    assert(now[k] == x);
                }
            }
        }
    }
}

/// The frontier holds exactly the names of the entries that are live and
/// that no live entry replaces or skips.
pub proof fn lemma_frontier_members(entries: Seq<EntryView>, current: VersionView)
    ensures
        forall|x: Seq<char>|
            frontier_names(entries, current).contains(x) <==> exists|i: int|
                0 <= i < entries.len() && on_frontier(entries, current, #[trigger] entries[i])
                    && entries[i].name == x,
        frontier_names(entries, current).to_multiset() == candidates(
            entries,
            current,
            entries.len() as int,
        ).to_multiset(),
{
    let picked = candidates(entries, current, entries.len() as int);
    lemma_candidates(entries, current, entries.len() as int);
    lemma_keyed_total(by_version());
    picked.lemma_sort_by_ensures(version_leq());
    assert forall|x: Seq<char>|
        frontier_names(entries, current).contains(x) <==> exists|i: int|
            0 <= i < entries.len() && on_frontier(entries, current, #[trigger] entries[i])
                && entries[i].name == x by {
        to_multiset_contains(picked, x);
        to_multiset_contains(frontier_names(entries, current), x);
        assert(picked.contains(x) <==> candidates(entries, current, entries.len() as int).contains(
            x,
        ));
    }
}

/// An entry that a live entry replaces is not on the frontier, whatever
/// else holds of it: the removal goes by the name alone.
pub proof fn lemma_replaced_left_out(
    entries: Seq<EntryView>,
    current: VersionView,
    name: Seq<char>,
)
    requires
        is_replaced(entries, current, name),
    ensures
        !frontier_names(entries, current).contains(name),
{
    lemma_frontier_members(entries, current);
}

/// An entry that a live entry skips is not on the frontier.
pub proof fn lemma_skipped_left_out(entries: Seq<EntryView>, current: VersionView, name: Seq<char>)
    requires
        is_skipped(entries, current, name),
    ensures
        !frontier_names(entries, current).contains(name),
{
    lemma_frontier_members(entries, current);
}

/// An entry whose version lies strictly below the starting version is not
/// live: it is not on the frontier, and what it replaces or skips does not
/// count.
pub proof fn lemma_older_entry_dropped(
    entries: Seq<EntryView>,
    current: VersionView,
    e: EntryView,
    v: VersionView,
)
    requires
        normalized(e.name) == Some(v),
        version_order(v, current) == Precedence::Lower,
    ensures
        !is_live(e, current),
        !on_frontier(entries, current, e),
        !frontier_names(entries, current).contains(e.name),
        forall|name: Seq<char>| !replaces_name(e, current, name) && !skips_name(e, current, name),
{
    lemma_version_flip(v, current);
    lemma_frontier_members(entries, current);
}

/// The frontier is in ascending order: of two of its names the earlier one
/// embeds a version that is at most that of the later one.
pub proof fn lemma_frontier_ascending(entries: Seq<EntryView>, current: VersionView, i: int, j: int)
    requires
        0 <= i <= j < frontier_names(entries, current).len(),
    ensures
        normalized(frontier_names(entries, current)[i]) is Some,
        normalized(frontier_names(entries, current)[j]) is Some,
        version_le(
            normalized(frontier_names(entries, current)[i]).unwrap(),
            normalized(frontier_names(entries, current)[j]).unwrap(),
        ),
        version_leq()(frontier_names(entries, current)[i], frontier_names(entries, current)[j]),
{
    let names = frontier_names(entries, current);
    let picked = candidates(entries, current, entries.len() as int);
    lemma_frontier_members(entries, current);
    lemma_keyed_total(by_version());
    picked.lemma_sort_by_ensures(version_leq());
    assert(names.contains(names[i]));
    assert(names.contains(names[j]));
    if i == j {
        assert(version_leq()(names[i], names[i]));
    } else {
        assert(version_leq()(names[i], names[j]));
    }
}

/// Evaluating twice what is the same gives the same: the frontier is a
/// function of the entries, the starting version and the start token.
pub proof fn lemma_frontier_repeatable(
    entries: Seq<EntryView>,
    again: Seq<EntryView>,
    current: VersionView,
    start: Seq<char>,
)
    requires
        entries == again,
    ensures
        frontier_of(entries, current, start) == frontier_of(again, current, start),
{
}

/// Where no entry is live the frontier is empty, the path is the start
/// token alone, and there are no skip ranges.
pub proof fn lemma_nothing_live(entries: Seq<EntryView>, current: VersionView, start: Seq<char>)
    requires
        forall|i: int| 0 <= i < entries.len() ==> !is_live(#[trigger] entries[i], current),
    ensures
        frontier_of(entries, current, start).entries == Seq::<Seq<char>>::empty(),
        frontier_of(entries, current, start).path == start,
        frontier_of(entries, current, start).skip_ranges == Seq::<Seq<char>>::empty(),
{
    let n = entries.len() as int;
    lemma_nothing_kept(entries, current, n);
    lemma_keyed_total(by_version());
    lemma_keyed_total(by_text());
    candidates(entries, current, n).lemma_sort_by_ensures(version_leq());
    kept_ranges(entries, current, n).lemma_sort_by_ensures(text_leq());
    to_multiset_len(candidates(entries, current, n));
    to_multiset_len(frontier_names(entries, current));
    to_multiset_len(kept_ranges(entries, current, n));
    to_multiset_len(skip_range_list(entries, current));
    assert(frontier_names(entries, current) =~= Seq::<Seq<char>>::empty());
    assert(skip_range_list(entries, current) =~= Seq::<Seq<char>>::empty());
}

/// Where none of the first `n` entries is live, none is a candidate and
/// none gives a skip range.
pub proof fn lemma_nothing_kept(entries: Seq<EntryView>, current: VersionView, n: int)
    requires
        0 <= n <= entries.len(),
        forall|i: int| 0 <= i < entries.len() ==> !is_live(#[trigger] entries[i], current),
    ensures
        candidates(entries, current, n) == Seq::<Seq<char>>::empty(),
        kept_ranges(entries, current, n) == Seq::<Seq<char>>::empty(),
    decreases n,
{
    if n > 0 {
        lemma_nothing_kept(entries, current, n - 1);
        assert(!is_live(entries[n - 1], current));
    }
}

/// A channel without entries has an empty frontier, and its path is the
/// start token alone.
pub proof fn lemma_empty_channel(current: VersionView, start: Seq<char>)
    ensures
        frontier_of(Seq::empty(), current, start) == (FrontierView {
            entries: Seq::empty(),
            path: start,
            skip_ranges: Seq::empty(),
            malformed: Seq::empty(),
        }),
{
    lemma_nothing_live(Seq::empty(), current, start);
    assert(malformed_names(Seq::empty(), 0) =~= Seq::<Seq<char>>::empty());
}

/// A lower bound that was seen among the first `m` entries is seen among
/// the first `n`, for every later `n`.
pub proof fn lemma_bound_stays_seen(
    entries: Seq<EntryView>,
    current: VersionView,
    m: int,
    n: int,
    bound: Seq<char>,
)
    requires
        m <= n,
        bound_seen(entries, current, m, bound),
    ensures
        bound_seen(entries, current, n, bound),
    decreases n - m,
{
    if m < n {
        lemma_bound_stays_seen(entries, current, m, n - 1, bound);
    }
}

/// Every skip range that was kept among the first `n` entries has a lower
/// bound that was seen among them.
pub proof fn lemma_kept_bounds_seen(entries: Seq<EntryView>, current: VersionView, n: int)
    requires
        0 <= n <= entries.len(),
    ensures
        forall|a: int|
            0 <= a < kept_ranges(entries, current, n).len() ==> bound_seen(
                entries,
                current,
                n,
                lower_bound(#[trigger] kept_ranges(entries, current, n)[a]),
            ),
    decreases n,
{
    if n > 0 {
        lemma_kept_bounds_seen(entries, current, n - 1);
        let before = kept_ranges(entries, current, n - 1);
        let now = kept_ranges(entries, current, n);
        assert forall|a: int| 0 <= a < now.len() implies bound_seen(
            entries,
            current,
            n,
            lower_bound(#[trigger] now[a]),
        ) by {
            if a < before.len() {
                assert(now[a] == before[a]);
                lemma_bound_stays_seen(entries, current, n - 1, n, lower_bound(before[a]));
            }
        }
    }
}

/// Skip ranges are kept once for each lower bound: no two of the kept
/// ranges have the same lower bound.
pub proof fn lemma_one_range_per_bound(entries: Seq<EntryView>, current: VersionView, n: int)
    requires
        0 <= n <= entries.len(),
    ensures
        forall|a: int, b: int|
            0 <= a < b < kept_ranges(entries, current, n).len() ==> lower_bound(
                #[trigger] kept_ranges(entries, current, n)[a],
            ) != lower_bound(#[trigger] kept_ranges(entries, current, n)[b]),
    decreases n,
{
    if n > 0 {
        lemma_one_range_per_bound(entries, current, n - 1);
        lemma_kept_bounds_seen(entries, current, n - 1);
        let before = kept_ranges(entries, current, n - 1);
        let now = kept_ranges(entries, current, n);
        assert forall|a: int, b: int| 0 <= a < b < now.len() implies lower_bound(#[trigger] now[a])
            != lower_bound(#[trigger] now[b]) by {
            if b < before.len() {
                assert(now[a] == before[a] && now[b] == before[b]);
            } else {
                assert(now[a] == before[a]);
            }
        }
    }
}

/// Of two entries that offer skip ranges with the same lower bound, the
/// later one adds nothing: the range that was met first stays.
pub proof fn lemma_first_range_wins(
    entries: Seq<EntryView>,
    current: VersionView,
    i: int,
    j: int,
)
    requires
        0 <= i < j < entries.len(),
        offers_range(entries[i], current),
        offers_range(entries[j], current),
        lower_bound(entries[i].skip_range.unwrap()) == lower_bound(entries[j].skip_range.unwrap()),
    ensures
        kept_ranges(entries, current, j + 1) == kept_ranges(entries, current, j),
{
    let bound = lower_bound(entries[i].skip_range.unwrap());
    assert(bound_seen(entries, current, i + 1, bound));
    lemma_bound_stays_seen(entries, current, i + 1, j, bound);
}

/// The first entry to offer a lower bound has its skip range kept.
pub proof fn lemma_new_bound_kept(entries: Seq<EntryView>, current: VersionView, i: int, n: int)
    requires
        0 <= i < n <= entries.len(),
        offers_range(entries[i], current),
        !bound_seen(entries, current, i, lower_bound(entries[i].skip_range.unwrap())),
    ensures
        kept_ranges(entries, current, n).contains(entries[i].skip_range.unwrap()),
    decreases n - i,
{
    let range = entries[i].skip_range.unwrap();
    if n == i + 1 {
        let now = kept_ranges(entries, current, n);
        assert(now[now.len() - 1] == range);
    } else {
        lemma_new_bound_kept(entries, current, i, n - 1);
        let before = kept_ranges(entries, current, n - 1);
        let k = choose|k: int| 0 <= k < before.len() && before[k] == range;
        assert(kept_ranges(entries, current, n)[k] == range);
    }
}

/// The list of skip ranges that is reported holds the kept ranges, each as
/// often as it was kept, in lexicographic order.
pub proof fn lemma_skip_ranges_sorted(entries: Seq<EntryView>, current: VersionView)
    ensures
        skip_range_list(entries, current).to_multiset() == kept_ranges(
            entries,
            current,
            entries.len() as int,
        ).to_multiset(),
        forall|a: int, b: int|
            0 <= a < b < skip_range_list(entries, current).len() ==> text_leq()(
                skip_range_list(entries, current)[a],
                skip_range_list(entries, current)[b],
            ),
{
    lemma_keyed_total(by_text());
    kept_ranges(entries, current, entries.len() as int).lemma_sort_by_ensures(text_leq());
}

} // verus!
