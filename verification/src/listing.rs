//! Where the catalogs lie on disk, and what to evaluate for a directory of
//! the cache.  Nothing here touches the disk: the caller walks it and asks.

use crate::schema::{every_channel, filter_views, FilterOperator, FilterView};
use crate::text::{
    chars_of, contains, find, find_last_char, first_occurrence, has_occurrence, last_before,
    lemma_first_occurrence,
};
use vstd::prelude::*;
use vstd::string::*;

verus! {

/// The text with a slash for each of its colons.
pub open spec fn colons_to_slashes(s: Seq<char>) -> Seq<char> {
    s.map_values(
        |c: char|
            if c == ':' {
                '/'
            } else {
                c
            },
    )
}

/// What follows the last slash of a text; the text where it holds none.
pub open spec fn last_segment(s: Seq<char>) -> Seq<char> {
    s.skip(last_before(s, '/', s.len() as int) + 1)
}

/// What stands before the first `pat` in `s`; `s` where `pat` is not in it.
pub open spec fn first_piece(s: Seq<char>, pat: Seq<char>) -> Seq<char> {
    if first_occurrence(s, pat, 0) >= 0 {
        s.take(first_occurrence(s, pat, 0))
    } else {
        s
    }
}

/// What stands between the first `pat` in `s` and the next one (the end,
/// where there is no next one); `None` where `pat` is not in `s`.
pub open spec fn second_piece(s: Seq<char>, pat: Seq<char>) -> Option<Seq<char>> {
    if first_occurrence(s, pat, 0) >= 0 {
        Some(first_piece(s.skip(first_occurrence(s, pat, 0) + pat.len()), pat))
    } else {
        None
    }
}

/// The directory that caches a catalog for the upgrade path: under `dir`,
/// the last segment of the image reference with its tag as a directory.
pub open spec fn catalog_cache_path(dir: Seq<char>, catalog: Seq<char>) -> Seq<char> {
    dir + colons_to_slashes(last_segment(catalog)) + "/cache/"@
}

/// The directory that caches a catalog for the list view.
pub open spec fn list_cache_path(dir: Seq<char>, catalog: Seq<char>) -> Seq<char> {
    dir + "/"@ + colons_to_slashes(catalog) + "//amd64/cache/"@
}

/// The marker of a directory that holds the configuration of a package.
pub open spec fn config_marker() -> Seq<char> {
    "updated-configs"@
}

/// The package whose configuration a directory holds: what its path names
/// between `/configs/` and `/updated-configs`.
pub open spec fn component_of(path: Seq<char>) -> Option<Seq<char>> {
    match second_piece(path, "/configs/"@) {
        Some(rest) => Some(first_piece(rest, "/updated-configs"@)),
        None => None,
    }
}

/// The filter that evaluates every channel of a package from an unbounded
/// start.
pub open spec fn whole_package(name: Seq<char>) -> FilterView {
    FilterView { name, channel: Some(every_channel()), from_version: None }
}

/// Those among the first `n` filters whose package the path names.
pub open spec fn named_in(path: Seq<char>, filters: Seq<FilterView>, n: int) -> Seq<FilterView>
    decreases n,
{
    if n <= 0 {
        Seq::empty()
    } else if has_occurrence(path, filters[n - 1].name) {
        named_in(path, filters, n - 1).push(filters[n - 1])
    } else {
        named_in(path, filters, n - 1)
    }
}

/// What to evaluate for a directory of the cache.  A directory that holds
/// no configuration asks for nothing.  With filters given, each filter
/// whose package the path names is evaluated; without, the whole package
/// that the path names.
pub open spec fn directory_plan(path: Seq<char>, filters: Option<Seq<FilterView>>) -> Seq<
    FilterView,
> {
    if !has_occurrence(path, config_marker()) {
        Seq::empty()
    } else {
        match filters {
            Some(list) => named_in(path, list, list.len() as int),
            None => match component_of(path) {
                Some(name) => seq![whole_package(name)],
                None => Seq::empty(),
            },
        }
    }
}

/// Writes the text with a slash for each of its colons.
pub fn swap_colons(text: &str) -> (r: String)
    ensures
        r@ == colons_to_slashes(text@),
{
    let chars = chars_of(text);
    let ghost mapped = colons_to_slashes(text@);
    let mut r = String::new();
    let mut i: usize = 0;
    proof {
        reveal_strlit("/");
    }
    while i < chars.len()
        invariant
            i <= chars.len(),
            chars@ == text@,
            mapped == colons_to_slashes(text@),
            "/"@ =~= seq!['/'],
            r@ =~= mapped.take(i as int),
        decreases chars.len() - i,
    {
        if chars[i] == ':' {
            r.append("/");
        } else {
            r.append(text.substring_char(i, i + 1));
        }
        i += 1;
    }
    assert(mapped.take(chars.len() as int) =~= mapped);
    r
}

/// What stands before the first `pat` in `text`.
pub fn piece_before(text: &str, pat: &str) -> (r: String)
    ensures
        r@ == first_piece(text@, pat@),
{
    let s = chars_of(text);
    let p = chars_of(pat);
    match find(&s, &p, 0) {
        Some(at) => {
            proof {
                lemma_first_occurrence(s@, p@, 0);
            }
            text.substring_char(0, at).to_owned()
        },
        None => text.to_owned(),
    }
}

/// What stands between the first `pat` in `text` and the next one.
pub fn piece_after(text: &str, pat: &str) -> (r: Option<String>)
    ensures
        match r {
            Some(x) => second_piece(text@, pat@) == Some(x@),
            None => second_piece(text@, pat@) is None,
        },
{
    let s = chars_of(text);
    let p = chars_of(pat);
    match find(&s, &p, 0) {
        Some(at) => {
            proof {
                lemma_first_occurrence(s@, p@, 0);
            }
            Some(piece_before(text.substring_char(at + p.len(), s.len()), pat))
        },
        None => None,
    }
}

/// The directory that caches a catalog for the upgrade path.
pub fn catalog_cache_dir(dir: &str, catalog: &str) -> (r: String)
    ensures
        r@ == catalog_cache_path(dir@, catalog@),
{
    let chars = chars_of(catalog);
    let start: usize = match find_last_char(&chars, '/', chars.len()) {
        Some(at) => at + 1,
        None => 0,
    };
    let mut r = dir.to_owned();
    r.append(swap_colons(catalog.substring_char(start, chars.len())).as_str());
    r.append("/cache/");
    r
}

/// The directory that caches a catalog for the list view.
pub fn list_cache_dir(dir: &str, catalog: &str) -> (r: String)
    ensures
        r@ == list_cache_path(dir@, catalog@),
{
    let mut r = dir.to_owned();
    r.append("/");
    r.append(swap_colons(catalog).as_str());
    r.append("//amd64/cache/");
    r
}

/// The package whose configuration a directory holds.
pub fn component_name(path: &str) -> (r: Option<String>)
    ensures
        match r {
            Some(x) => component_of(path@) == Some(x@),
            None => component_of(path@) is None,
        },
{
    match piece_after(path, "/configs/") {
        Some(rest) => Some(piece_before(rest.as_str(), "/updated-configs")),
        None => None,
    }
}

/// What to evaluate for a directory of the cache.
pub fn plan_for_directory(path: &str, filters: &Option<Vec<FilterOperator>>) -> (r: Vec<
    FilterOperator,
>)
    ensures
        filter_views(r@) == directory_plan(
            path@,
            match *filters {
                Some(list) => Some(filter_views(list@)),
                None => None,
            },
        ),
{
    let mut r: Vec<FilterOperator> = Vec::new();
    let chars = chars_of(path);
    if !contains(&chars, &chars_of("updated-configs")) {
        assert(filter_views(r@) =~= Seq::<FilterView>::empty());
        return r;
    }
    match filters {
        Some(list) => {
            let ghost all = filter_views(list@);
            let mut i: usize = 0;
            while i < list.len()
                invariant
                    i <= list.len(),
                    chars@ == path@,
                    all == filter_views(list@),
                    filter_views(r@) =~= named_in(path@, all, i as int),
                decreases list.len() - i,
            {
                assert(all[i as int] == list[i as int]@);
                if contains(&chars, &chars_of(list[i].name.as_str())) {
                    let ghost before = r@;
                    r.push(list[i].duplicate());
                    assert(filter_views(r@) =~= filter_views(before).push(list[i as int]@));
                }
                i += 1;
            }
        },
        None => {
            match component_name(path) {
                Some(name) => {
                    let filter = FilterOperator {
                        name,
                        channel: Some("all".to_owned()),
                        from_version: None,
                    };
                    assert(filter@ == whole_package(name@));
                    r.push(filter);
                    assert(filter_views(r@) =~= seq![whole_package(name@)]);
                },
                None => {
                    assert(filter_views(r@) =~= Seq::<FilterView>::empty());
                },
            }
        },
    }
    r
}

} // verus!
