//! The frontier calculator: which entries of a channel an upgrade from a
//! given version should go through, in which order, and which skip ranges
//! go with them.

use crate::error::EngineError;
use crate::model::{entry_views, texts, Channel, ChannelEntry, EntryView};
use crate::rank::{
    by_text, by_version, ranked_by, ranked_names, sort_ranked, text_leq, version_leq, Ranked,
};
use crate::schema::FilterOperator;
use crate::semver_glue::{parse_semver, semver_version};
use crate::text::{chars_of, find_char, first_at, Precedence};
use crate::version::{normalize, normalized, version_le, zero_version, Version, VersionView};
use vstd::prelude::*;
use vstd::string::*;

verus! {

/// The entry takes part in an upgrade from `current`: its name embeds a
/// version, and that version is not below `current`.
pub open spec fn is_live(e: EntryView, current: VersionView) -> bool {
    match normalized(e.name) {
        Some(v) => version_le(current, v),
        None => false,
    }
}

/// The entry is live and declares that it replaces `name`.
pub open spec fn replaces_name(e: EntryView, current: VersionView, name: Seq<char>) -> bool {
    is_live(e, current) && e.replaces == Some(name)
}

/// The entry is live and lists `name` among those it skips.
pub open spec fn skips_name(e: EntryView, current: VersionView, name: Seq<char>) -> bool {
    is_live(e, current) && e.skips.contains(name)
}

/// Some live entry replaces `name`.
pub open spec fn is_replaced(
    entries: Seq<EntryView>,
    current: VersionView,
    name: Seq<char>,
) -> bool {
    exists|i: int| 0 <= i < entries.len() && replaces_name(#[trigger] entries[i], current, name)
}

/// Some live entry skips `name`.
pub open spec fn is_skipped(
    entries: Seq<EntryView>,
    current: VersionView,
    name: Seq<char>,
) -> bool {
    exists|i: int| 0 <= i < entries.len() && skips_name(#[trigger] entries[i], current, name)
}

/// The entry is on the frontier: it is live, and no live entry replaces or
/// skips its name.
pub open spec fn on_frontier(entries: Seq<EntryView>, current: VersionView, e: EntryView) -> bool {
    is_live(e, current) && !is_replaced(entries, current, e.name) && !is_skipped(
        entries,
        current,
        e.name,
    )
}

/// The names of the entries on the frontier among the first `n`, in the
/// order of the channel.
pub open spec fn candidates(entries: Seq<EntryView>, current: VersionView, n: int) -> Seq<
    Seq<char>,
>
    decreases n,
{
    if n <= 0 {
        Seq::empty()
    } else if on_frontier(entries, current, entries[n - 1]) {
        candidates(entries, current, n - 1).push(entries[n - 1].name)
    } else {
        candidates(entries, current, n - 1)
    }
}

/// The names among the first `n` entries that embed no readable version, in
/// the order of the channel.
pub open spec fn malformed_names(entries: Seq<EntryView>, n: int) -> Seq<Seq<char>>
    decreases n,
{
    if n <= 0 {
        Seq::empty()
    } else if normalized(entries[n - 1].name) is None {
        malformed_names(entries, n - 1).push(entries[n - 1].name)
    } else {
        malformed_names(entries, n - 1)
    }
}

/// The frontier: the names of the entries on it, oldest version first.
pub open spec fn frontier_names(entries: Seq<EntryView>, current: VersionView) -> Seq<Seq<char>> {
    candidates(entries, current, entries.len() as int).sort_by(version_leq())
}

/// The separator between two steps of a path.
pub open spec fn arrow() -> Seq<char> {
    " -> "@
}

/// The upgrade path as a text: the start token, then each name after an
/// arrow.
pub open spec fn path_text(start: Seq<char>, names: Seq<Seq<char>>) -> Seq<char>
    decreases names.len(),
{
    if names.len() == 0 {
        start
    } else {
        path_text(start, names.drop_last()) + arrow() + names.last()
    }
}

/// The lower bound of a skip range: what stands before its first `<`.
pub open spec fn lower_bound(range: Seq<char>) -> Seq<char> {
    range.take(first_at(range, '<', 0))
}

/// The entry is live and carries a skip range that is not empty.
pub open spec fn offers_range(e: EntryView, current: VersionView) -> bool {
    is_live(e, current) && e.skip_range is Some && e.skip_range.unwrap().len() > 0
}

/// One of the first `n` entries offers a skip range with that lower bound.
pub open spec fn bound_seen(
    entries: Seq<EntryView>,
    current: VersionView,
    n: int,
    bound: Seq<char>,
) -> bool
    decreases n,
{
    n > 0 && (bound_seen(entries, current, n - 1, bound) || (offers_range(entries[n - 1], current)
        && lower_bound(entries[n - 1].skip_range.unwrap()) == bound))
}

/// The skip ranges of the first `n` entries, one for each lower bound: the
/// first that an entry offers, in the order of the channel.
pub open spec fn kept_ranges(entries: Seq<EntryView>, current: VersionView, n: int) -> Seq<
    Seq<char>,
>
    decreases n,
{
    if n <= 0 {
        Seq::empty()
    } else if offers_range(entries[n - 1], current) && !bound_seen(
        entries,
        current,
        n - 1,
        lower_bound(entries[n - 1].skip_range.unwrap()),
    ) {
        kept_ranges(entries, current, n - 1).push(entries[n - 1].skip_range.unwrap())
    } else {
        kept_ranges(entries, current, n - 1)
    }
}

/// The skip ranges that go with the frontier, in lexicographic order.
pub open spec fn skip_range_list(entries: Seq<EntryView>, current: VersionView) -> Seq<Seq<char>> {
    kept_ranges(entries, current, entries.len() as int).sort_by(text_leq())
}

/// The outcome of one evaluation of a channel.
#[derive(Clone, Debug, PartialEq, Eq)]
pub struct Frontier {
    /// The suggested upgrade path: names of entries, oldest version first.
    pub entries: Vec<String>,
    /// The path as a text, from the start token on.
    pub path: String,
    /// The skip ranges that go with the path, one for each lower bound.
    pub skip_ranges: Vec<String>,
    /// Names that were left out because they embed no readable version.
    pub malformed: Vec<String>,
}

/// What a [`Frontier`] stands for.
pub struct FrontierView {
    pub entries: Seq<Seq<char>>,
    pub path: Seq<char>,
    pub skip_ranges: Seq<Seq<char>>,
    pub malformed: Seq<Seq<char>>,
}

impl View for Frontier {
    type V = FrontierView;

    open spec fn view(&self) -> FrontierView {
        FrontierView {
            entries: texts(self.entries@),
            path: self.path@,
            skip_ranges: texts(self.skip_ranges@),
            malformed: texts(self.malformed@),
        }
    }
}

/// The frontier of a channel for an upgrade from `current`, reported from
/// the start token `start`.
pub open spec fn frontier_of(
    entries: Seq<EntryView>,
    current: VersionView,
    start: Seq<char>,
) -> FrontierView {
    FrontierView {
        entries: frontier_names(entries, current),
        path: path_text(start, frontier_names(entries, current)),
        skip_ranges: skip_range_list(entries, current),
        malformed: malformed_names(entries, entries.len() as int),
    }
}

/// `live` tells of each entry whether it is live.
spec fn tells_live(entries: Seq<ChannelEntry>, live: Seq<bool>, current: VersionView) -> bool {
    live.len() == entries.len() && forall|i: int|
        0 <= i < entries.len() ==> (#[trigger] live[i]) == is_live(entries[i]@, current)
}

/// `versions` holds for each entry the version that its name embeds.
spec fn tells_versions(entries: Seq<ChannelEntry>, versions: Seq<Option<Version>>) -> bool {
    versions.len() == entries.len() && forall|i: int|
        0 <= i < entries.len() ==> match (#[trigger] versions[i]) {
            Some(v) => normalized(entries[i].name@) == Some(v@),
            None => normalized(entries[i].name@) is None,
        }
}

/// Tells whether `name` is in the list.
fn list_has(list: &Vec<String>, name: &String) -> (r: bool)
    ensures
        r == texts(list@).contains(name@),
{
    let ghost all = texts(list@);
    let mut i: usize = 0;
    while i < list.len()
        invariant
            i <= list.len(),
            all == texts(list@),
            forall|j: int| 0 <= j < i ==> all[j] != name@,
        decreases list.len() - i,
    {
        if list[i] == *name {
            assert(all[i as int] == name@);
            return true;
        }
        i += 1;
    }
    false
}

/// The version of each entry, and whether the entry is live.
fn survey(entries: &Vec<ChannelEntry>, current: &Version) -> (r: (
    Vec<Option<Version>>,
    Vec<bool>,
    Vec<String>,
))
    ensures
        tells_versions(entries@, r.0@),
        tells_live(entries@, r.1@, current@),
        texts(r.2@) == malformed_names(entry_views(entries@), entries.len() as int),
{
    let ghost ev = entry_views(entries@);
    let mut versions: Vec<Option<Version>> = Vec::new();
    let mut live: Vec<bool> = Vec::new();
    let mut malformed: Vec<String> = Vec::new();
    let mut i: usize = 0;
    while i < entries.len()
        invariant
            i <= entries.len(),
            ev == entry_views(entries@),
            versions.len() == i,
            live.len() == i,
            forall|j: int|
                0 <= j < i ==> match (#[trigger] versions[j]) {
                    Some(v) => normalized(entries[j].name@) == Some(v@),
                    None => normalized(entries[j].name@) is None,
                },
            forall|j: int| 0 <= j < i ==> (#[trigger] live[j]) == is_live(entries[j]@, current@),
            texts(malformed@) =~= malformed_names(ev, i as int),
        decreases entries.len() - i,
    {
        assert(ev[i as int] == entries[i as int]@);
        match normalize(entries[i].name.as_str()) {
            Ok(v) => {
                let above = matches!(current.precedence(&v), Precedence::Higher);
                live.push(!above);
                versions.push(Some(v));
            },
            Err(_) => {
                live.push(false);
                versions.push(None);
                let ghost before = malformed@;
                malformed.push(entries[i].name.clone());
                assert(texts(malformed@) =~= texts(before).push(entries[i as int].name@));
            },
        }
        i += 1;
    }
    (versions, live, malformed)
}

/// Tells whether some live entry replaces `name`.
fn replaced(
    entries: &Vec<ChannelEntry>,
    live: &Vec<bool>,
    name: &String,
    Ghost(current): Ghost<VersionView>,
) -> (r: bool)
    requires
        tells_live(entries@, live@, current),
    ensures
        r == is_replaced(entry_views(entries@), current, name@),
{
    let ghost ev = entry_views(entries@);
    let mut i: usize = 0;
    while i < entries.len()
        invariant
            i <= entries.len(),
            ev == entry_views(entries@),
            tells_live(entries@, live@, current),
            forall|j: int| 0 <= j < i ==> !replaces_name(#[trigger] ev[j], current, name@),
        decreases entries.len() - i,
    {
        assert(ev[i as int] == entries[i as int]@);
        if live[i] {
            let hit = match &entries[i].replaces {
                Some(r) => *r == *name,
                None => false,
            };
            if hit {
                assert(replaces_name(ev[i as int], current, name@));
                return true;
            }
        }
        i += 1;
    }
    false
}

/// Tells whether some live entry skips `name`.
fn skipped(
    entries: &Vec<ChannelEntry>,
    live: &Vec<bool>,
    name: &String,
    Ghost(current): Ghost<VersionView>,
) -> (r: bool)
    requires
        tells_live(entries@, live@, current),
    ensures
        r == is_skipped(entry_views(entries@), current, name@),
{
    let ghost ev = entry_views(entries@);
    let mut i: usize = 0;
    while i < entries.len()
        invariant
            i <= entries.len(),
            ev == entry_views(entries@),
            tells_live(entries@, live@, current),
            forall|j: int| 0 <= j < i ==> !skips_name(#[trigger] ev[j], current, name@),
        decreases entries.len() - i,
    {
        assert(ev[i as int] == entries[i as int]@);
        if live[i] {
            let hit = match &entries[i].skips {
                Some(list) => list_has(list, name),
                None => false,
            };
            if hit {
                assert(skips_name(ev[i as int], current, name@));
                return true;
            }
        }
        i += 1;
    }
    false
}

/// The names of a sorted list, in its order.
fn names_of(sorted: Vec<Ranked>) -> (names: Vec<String>)
    ensures
        texts(names@) == ranked_names(sorted@),
{
    let ghost all = ranked_names(sorted@);
    let mut names: Vec<String> = Vec::new();
    for item in it: sorted
        invariant
            it.seq() == sorted@,
            all == ranked_names(sorted@),
            texts(names@) =~= all.take(it.index() as int),
    {
        let ghost before = names@;
        assert(all[it.index() as int] == item.name@);
        names.push(item.name);
        assert(texts(names@) =~= texts(before).push(item.name@));
    }
    assert(all.take(all.len() as int) =~= all);
    names
}

/// Writes the upgrade path: the start token, then each name after an arrow.
pub fn path_string(start: &str, names: &Vec<String>) -> (path: String)
    ensures
        path@ == path_text(start@, texts(names@)),
{
    let ghost all = texts(names@);
    let mut path: String = start.to_owned();
    let mut i: usize = 0;
    assert(all.take(0) =~= Seq::<Seq<char>>::empty());
    while i < names.len()
        invariant
            i <= names.len(),
            all == texts(names@),
            path@ == path_text(start@, all.take(i as int)),
        decreases names.len() - i,
    {
        assert(all.take(i + 1).drop_last() =~= all.take(i as int));
        assert(all.take(i + 1).last() == names[i as int]@);
        path.append(" -> ");
        path.append(names[i].as_str());
        i += 1;
    }
    assert(all.take(all.len() as int) =~= all);
    path
}

/// The frontier of `channel` for an upgrade from `current`, with `start` as
/// the token that opens the path.
pub fn frontier_from(channel: &Channel, current: &Version, start: &str) -> (f: Frontier)
    ensures
        f@ == frontier_of(channel@.entries, current@, start@),
{
    let entries = &channel.entries;
    let ghost ev = entry_views(entries@);
    let ghost cur = current@;
    let (versions, live, malformed) = survey(entries, current);

    let mut picked: Vec<Ranked> = Vec::new();
    let mut kept: Vec<Ranked> = Vec::new();
    let mut seen: Vec<String> = Vec::new();
    let mut i: usize = 0;
    while i < entries.len()
        invariant
            i <= entries.len(),
            ev == entry_views(entries@),
            cur == current@,
            tells_versions(entries@, versions@),
            tells_live(entries@, live@, cur),
            ranked_by(picked@, by_version()),
            ranked_names(picked@) =~= candidates(ev, cur, i as int),
            ranked_by(kept@, by_text()),
            ranked_names(kept@) =~= kept_ranges(ev, cur, i as int),
            forall|b: Seq<char>| texts(seen@).contains(b) <==> bound_seen(ev, cur, i as int, b),
        decreases entries.len() - i,
    {
        let entry = &entries[i];
        assert(ev[i as int] == entry@);
        if live[i] {
            if !replaced(entries, &live, &entry.name, Ghost(cur)) && !skipped(
                entries,
                &live,
                &entry.name,
                Ghost(cur),
            ) {
                let version = match &versions[i] {
                    Some(v) => Some(v.duplicate()),
                    None => None,
                };
                let ghost before = picked@;
                picked.push(Ranked { version, name: entry.name.clone() });
                assert(ranked_names(picked@) =~= ranked_names(before).push(entry.name@));
            }
            match &entry.skip_range {
                Some(range) => {
                    let chars = chars_of(range.as_str());
                    if chars.len() > 0 {
                        let end: usize = find_char(&chars, '<', 0);
                        let bound = range.as_str().substring_char(0, end).to_owned();
                        assert(bound@ == lower_bound(range@));
                        if !list_has(&seen, &bound) {
                            let ghost seen_before = seen@;
                            let ghost kept_before = kept@;
                            seen.push(bound);
                            kept.push(Ranked { version: None, name: range.clone() });
                            assert(texts(seen@) =~= texts(seen_before).push(lower_bound(range@)));
                            assert(ranked_names(kept@) =~= ranked_names(kept_before).push(range@));
                            assert forall|b: Seq<char>| texts(seen@).contains(b) <==> bound_seen(
                                ev,
                                cur,
                                i + 1,
                                b,
                            ) by {
                                if texts(seen_before).contains(b) {
                                    let k = choose|k: int|
                                        0 <= k < seen_before.len() && texts(seen_before)[k] == b;
                                    assert(texts(seen@)[k] == b);
                                }
                                if b == lower_bound(range@) {
                                    assert(texts(seen@)[seen_before.len() as int] == b);
                                }
                                if texts(seen@).contains(b) {
                                    let k = choose|k: int|
                                        0 <= k < seen@.len() && texts(seen@)[k] == b;
                                    if k < seen_before.len() {
                                        assert(texts(seen_before)[k] == b);
                                    }
                                }
                            }
                        }
                    }
                },
                None => {},
            }
        }
        i += 1;
    }
    let names = names_of(sort_ranked(picked, Ghost(by_version())));
    let path = path_string(start, &names);
    let skip_ranges = names_of(sort_ranked(kept, Ghost(by_text())));
    let f = Frontier { entries: names, path, skip_ranges, malformed };
    assert(f@.entries == frontier_names(ev, cur));
    assert(f@.skip_ranges == skip_range_list(ev, cur));
    f
}

/// The version from which a filter starts: `0.0.0` where it names none,
/// else what `semver` reads from the one it names.
pub open spec fn start_version(filter: FilterOperator) -> Option<VersionView> {
    match filter.from_version {
        Some(text) => semver_version(text@),
        None => Some(zero_version()),
    }
}

/// The frontier of `channel` for the upgrade that `filter` asks for.
///
/// The starting version is read as a semantic version; where it is none,
/// the evaluation fails with `InvalidFromVersion`.  Without a starting
/// version every readable entry is live and the path opens with `"?"`.
pub fn compute_frontier(channel: &Channel, filter: &FilterOperator) -> (r: Result<
    Frontier,
    EngineError,
>)
    ensures
        match r {
            Ok(f) => start_version(*filter) is Some && f@ == frontier_of(
                channel@.entries,
                start_version(*filter).unwrap(),
                filter.start_text(),
            ),
            Err(e) => e == EngineError::InvalidFromVersion && start_version(*filter) is None,
        },
{
    let start = filter.start_token();
    match &filter.from_version {
        Some(text) => match parse_semver(text.as_str()) {
            Some(current) => Ok(frontier_from(channel, &current, start.as_str())),
            None => Err(EngineError::InvalidFromVersion),
        },
        None => Ok(frontier_from(channel, &Version::zero(), start.as_str())),
    }
}

} // verus!
