//! The list view: the lines that show the packages of a catalog, or the
//! channels and bundles of one package, with their terminal escapes.

use crate::listing::{piece_after, second_piece};
use crate::model::{
    channel_views, entry_views, texts, Channel, ChannelGraph, ChannelView, EntryView,
};
use crate::text::{chars_of, contains, has_occurrence};
use vstd::prelude::*;
use vstd::string::*;

verus! {

/// The heading of the list of packages.
pub open spec fn packages_heading() -> Seq<Seq<char>> {
    seq![
        ""@,
        "\x1b[05C\x1b[1;97mOPERATORS\x1b[0m"@,
        "\x1b[05C\x1b[1;97m-----------------------------------------\x1b[0m"@,
        ""@,
    ]
}

/// The line that shows the package of a directory: one for each directory
/// below `/configs/` that is not the configuration of a package itself.
pub open spec fn package_row(path: Seq<char>) -> Option<Seq<char>> {
    if has_occurrence(path, "/configs/"@) && !has_occurrence(path, "/updated-configs"@) {
        Some("\x1b[05C\x1b[0;97m"@ + second_piece(path, "/configs/"@).unwrap() + "\x1b[0m"@)
    } else {
        None
    }
}

/// The lines that show the first `n` bundles of a channel.
pub open spec fn bundle_rows(entries: Seq<EntryView>, n: int) -> Seq<Seq<char>>
    decreases n,
{
    if n <= 0 {
        Seq::empty()
    } else {
        bundle_rows(entries, n - 1).push("\x1b[85C\x1b[0;97m"@ + entries[n - 1].name + "\x1b[0m"@)
    }
}

/// The line that shows a channel; the default channel stands out.
pub open spec fn channel_row(name: Seq<char>, default: Seq<char>) -> Seq<char> {
    if name == default {
        "\x1b[55C\x1b[1;94m"@ + name + "\x1b[0m\x1b[1A"@
    } else {
        "\x1b[55C"@ + name + "\x1b[1A"@
    }
}

/// The lines that show a channel: its name, its bundles, an empty line.
pub open spec fn channel_rows(channel: ChannelView, default: Seq<char>) -> Seq<Seq<char>> {
    seq![channel_row(channel.name, default)] + bundle_rows(
        channel.entries,
        channel.entries.len() as int,
    ) + seq![""@]
}

/// The lines that show the first `n` channels.
pub open spec fn table_rows(channels: Seq<ChannelView>, default: Seq<char>, n: int) -> Seq<
    Seq<char>,
>
    decreases n,
{
    if n <= 0 {
        Seq::empty()
    } else {
        table_rows(channels, default, n - 1) + channel_rows(channels[n - 1], default)
    }
}

/// The default channel as the table knows it: empty where the catalog held
/// no package record.
pub open spec fn table_default(graph: ChannelGraph) -> Seq<char> {
    match graph.package_spec() {
        Some(p) => p.default_channel@,
        None => Seq::empty(),
    }
}

/// The table of one package: heading, the package, then its channels.
pub open spec fn package_table(graph: ChannelGraph, operator: Seq<char>) -> Seq<Seq<char>> {
    seq![
        ""@,
        "\x1b[05C\x1b[1;97mOPERATOR\x1b[0m\x1b[42C\x1b[1;97mCHANNELS\x1b[0m\x1b[22C\x1b[1;97mBUNDLES\x1b[0m"@,
        "\x1b[05C\x1b[1;97m------------------------------------------------  ----------------------------  ------------------------------------------\x1b[0m"@,
        "\x1b[05C\x1b[1;97m"@ + operator + "\x1b[0m\x1b[1A"@,
    ] + table_rows(
        channel_views(graph.channels_spec()),
        table_default(graph),
        graph.channels_spec().len() as int,
    )
}

/// The heading of the list of packages.
pub fn render_heading() -> (r: Vec<String>)
    ensures
        texts(r@) == packages_heading(),
{
    let mut r: Vec<String> = Vec::new();
    r.push("".to_owned());
    r.push("\x1b[05C\x1b[1;97mOPERATORS\x1b[0m".to_owned());
    r.push("\x1b[05C\x1b[1;97m-----------------------------------------\x1b[0m".to_owned());
    r.push("".to_owned());
    assert(texts(r@) =~= packages_heading());
    r
}

/// The line that shows the package of a directory, where it shows one.
pub fn render_package_row(path: &str) -> (r: Option<String>)
    ensures
        match r {
            Some(row) => package_row(path@) == Some(row@),
            None => package_row(path@) is None,
        },
{
    let chars = chars_of(path);
    if contains(&chars, &chars_of("/updated-configs")) {
        return None;
    }
    match piece_after(path, "/configs/") {
        Some(name) => {
            let mut row = "\x1b[05C\x1b[0;97m".to_owned();
            row.append(name.as_str());
            row.append("\x1b[0m");
            Some(row)
        },
        None => None,
    }
}

/// The lines that show one channel.
pub fn render_channel(channel: &Channel, default: &String) -> (r: Vec<String>)
    ensures
        texts(r@) == channel_rows(channel@, default@),
{
    let ghost entries = entry_views(channel.entries@);
    let mut r: Vec<String> = Vec::new();
    let mut row: String;
    if channel.name == *default {
        row = "\x1b[55C\x1b[1;94m".to_owned();
        row.append(channel.name.as_str());
        row.append("\x1b[0m\x1b[1A");
    } else {
        row = "\x1b[55C".to_owned();
        row.append(channel.name.as_str());
        row.append("\x1b[1A");
    }
    r.push(row);
    let ghost first = texts(r@);
    assert(first =~= seq![channel_row(channel@.name, default@)]);
    let mut i: usize = 0;
    while i < channel.entries.len()
        invariant
            i <= channel.entries.len(),
            entries == entry_views(channel.entries@),
            texts(r@) =~= first + bundle_rows(entries, i as int),
        decreases channel.entries.len() - i,
    {
        assert(entries[i as int] == channel.entries[i as int]@);
        let mut bundle = "\x1b[85C\x1b[0;97m".to_owned();
        bundle.append(channel.entries[i].name.as_str());
        bundle.append("\x1b[0m");
        let ghost before = r@;
        r.push(bundle);
        assert(texts(r@) =~= texts(before).push(bundle@));
        i += 1;
    }
    r.push("".to_owned());
    assert(texts(r@) =~= channel_rows(channel@, default@));
    r
}

/// The table of one package.
pub fn render_operator(graph: &ChannelGraph, operator: &str) -> (r: Vec<String>)
    ensures
        texts(r@) == package_table(*graph, operator@),
{
    let channels = graph.channels();
    let ghost views = channel_views(channels@);
    let default = match graph.package() {
        Some(p) => p.default_channel.clone(),
        None => String::new(),
    };
    let mut r: Vec<String> = Vec::new();
    r.push("".to_owned());
    r.push(
        "\x1b[05C\x1b[1;97mOPERATOR\x1b[0m\x1b[42C\x1b[1;97mCHANNELS\x1b[0m\x1b[22C\x1b[1;97mBUNDLES\x1b[0m".to_owned(),
    );
    r.push(
        "\x1b[05C\x1b[1;97m------------------------------------------------  ----------------------------  ------------------------------------------\x1b[0m".to_owned(),
    );
    let mut name = "\x1b[05C\x1b[1;97m".to_owned();
    name.append(operator);
    name.append("\x1b[0m\x1b[1A");
    r.push(name);
    let ghost head = texts(r@);
    assert(head =~= package_table(*graph, operator@).take(4));
    let mut i: usize = 0;
    while i < channels.len()
        invariant
            i <= channels.len(),
            channels@ == graph.channels_spec(),
            views == channel_views(channels@),
            default@ == table_default(*graph),
            texts(r@) =~= head + table_rows(views, default@, i as int),
        decreases channels.len() - i,
    {
        assert(views[i as int] == channels[i as int]@);
        let mut block = render_channel(&channels[i], &default);
        let ghost before = r@;
        let ghost added = block@;
        r.append(&mut block);
        assert(texts(r@) =~= texts(before) + texts(added));
        i += 1;
    }
    assert(texts(r@) =~= package_table(*graph, operator@));
    r
}

} // verus!
