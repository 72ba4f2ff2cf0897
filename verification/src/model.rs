//! The channel graph of a package, as the catalog loader hands it over:
//! records, channels and their entries, with the views that the contracts
//! of the engine speak of.

use vstd::prelude::*;

verus! {

/// The views of a list of strings, in order.
pub open spec fn texts(v: Seq<String>) -> Seq<Seq<char>> {
    v.map_values(|s: String| s@)
}

/// One bundle of a channel.
#[derive(Clone, Debug, PartialEq, Eq)]
pub struct ChannelEntry {
    /// The bundle name, which embeds the version.
    pub name: String,
    /// The entry that this one supersedes directly.
    pub replaces: Option<String>,
    /// Entries that an upgrade may pass over.
    pub skips: Option<Vec<String>>,
    /// A version range that this entry supersedes without naming entries.
    pub skip_range: Option<String>,
}

/// What a [`ChannelEntry`] stands for.
pub struct EntryView {
    pub name: Seq<char>,
    pub replaces: Option<Seq<char>>,
    pub skips: Seq<Seq<char>>,
    pub skip_range: Option<Seq<char>>,
}

impl View for ChannelEntry {
    type V = EntryView;

    open spec fn view(&self) -> EntryView {
        EntryView {
            name: self.name@,
            replaces: match self.replaces {
                Some(r) => Some(r@),
                None => None,
            },
            skips: match self.skips {
                Some(s) => texts(s@),
                None => Seq::empty(),
            },
            skip_range: match self.skip_range {
                Some(r) => Some(r@),
                None => None,
            },
        }
    }
}

/// The views of a list of entries, in order.
pub open spec fn entry_views(v: Seq<ChannelEntry>) -> Seq<EntryView> {
    v.map_values(|e: ChannelEntry| e@)
}

/// A named upgrade lineage of a package.
#[derive(Clone, Debug, PartialEq, Eq)]
pub struct Channel {
    pub name: String,
    /// The entries in the order of the catalog.
    pub entries: Vec<ChannelEntry>,
}

/// What a [`Channel`] stands for.
pub struct ChannelView {
    pub name: Seq<char>,
    pub entries: Seq<EntryView>,
}

impl View for Channel {
    type V = ChannelView;

    open spec fn view(&self) -> ChannelView {
        ChannelView { name: self.name@, entries: entry_views(self.entries@) }
    }
}

/// The views of a list of channels, in order.
pub open spec fn channel_views(v: Seq<Channel>) -> Seq<ChannelView> {
    v.map_values(|c: Channel| c@)
}

/// The record that names a package and its default channel.
#[derive(Clone, Debug, PartialEq, Eq)]
pub struct PackageRecord {
    pub name: String,
    pub default_channel: String,
}

/// One record of a catalog, told apart by its schema tag once, where the
/// catalog is read.
#[derive(Clone, Debug, PartialEq, Eq)]
pub enum CatalogRecord {
    /// Schema `olm.package`.
    Package(PackageRecord),
    /// Schema `olm.channel`.
    Channel(Channel),
    /// Any other schema; the engine passes over it.
    Other,
}

/// The channels among the first `n` records, in order.
pub open spec fn channels_among(records: Seq<CatalogRecord>, n: int) -> Seq<ChannelView>
    decreases n,
{
    if n <= 0 {
        Seq::empty()
    } else {
        match records[n - 1] {
            CatalogRecord::Channel(c) => channels_among(records, n - 1).push(c@),
            _ => channels_among(records, n - 1),
        }
    }
}

/// Position of the first package record among the first `n` records, `-1`
/// where there is none.
pub open spec fn first_package(records: Seq<CatalogRecord>, n: int) -> int
    decreases n,
{
    if n <= 0 {
        -1
    } else if first_package(records, n - 1) >= 0 {
        first_package(records, n - 1)
    } else if records[n - 1] is Package {
        n - 1
    } else {
        -1
    }
}

/// Position of the first channel named `name` among `channels`, from `from`
/// on; `channels.len()` where there is none.
pub open spec fn channel_position(channels: Seq<ChannelView>, name: Seq<char>, from: int) -> int
    decreases channels.len() - from,
{
    if from >= channels.len() {
        channels.len() as int
    } else if from >= 0 && channels[from].name == name {
        from
    } else {
        channel_position(channels, name, from + 1)
    }
}

/// The channel graph of one package.  It is made once from the records of
/// the catalog and only read afterwards.
#[derive(Clone, Debug)]
pub struct ChannelGraph {
    package: Option<PackageRecord>,
    channels: Vec<Channel>,
}

impl ChannelGraph {
    /// The package record, where the catalog held one.
    pub closed spec fn package_spec(&self) -> Option<PackageRecord> {
        self.package
    }

    /// The channels, in the order of the catalog.
    pub closed spec fn channels_spec(&self) -> Seq<Channel> {
        self.channels@
    }

    /// The graph of a package from its records: the first package record,
    /// and every channel record in the order given.
    pub fn from_records(records: Vec<CatalogRecord>) -> (g: ChannelGraph)
        ensures
            channel_views(g.channels_spec()) == channels_among(records@, records.len() as int),
            match g.package_spec() {
                Some(p) => first_package(records@, records.len() as int) >= 0
                    && records@[first_package(records@, records.len() as int)]
                    == CatalogRecord::Package(p),
                None => first_package(records@, records.len() as int) == -1,
            },
    {
        let ghost all = records@;
        let mut package: Option<PackageRecord> = None;
        let mut channels: Vec<Channel> = Vec::new();
        for record in it: records
            invariant
                it.seq() == all,
                channel_views(channels@) =~= channels_among(all, it.index() as int),
                match package {
                    Some(p) => first_package(all, it.index() as int) >= 0 && all[first_package(
                        all,
                        it.index() as int,
                    )] == CatalogRecord::Package(p),
                    None => first_package(all, it.index() as int) == -1,
                },
        {
            match record {
                CatalogRecord::Package(p) => {
                    if package.is_none() {
                        package = Some(p);
                    }
                },
                CatalogRecord::Channel(c) => {
                    let ghost old_channels = channels@;
                    channels.push(c);
                    assert(channel_views(channels@) =~= channel_views(old_channels).push(c@));
                },
                CatalogRecord::Other => {},
            }
        }
        ChannelGraph { package, channels }
    }

    /// The package record, where the catalog held one.
    pub fn package(&self) -> (r: Option<&PackageRecord>)
        ensures
            match r {
                Some(p) => self.package_spec() == Some(*p),
                None => self.package_spec() is None,
            },
    {
        self.package.as_ref()
    }

    /// The channels of the package, in the order of the catalog.
    pub fn channels(&self) -> (r: &Vec<Channel>)
        ensures
            r@ == self.channels_spec(),
    {
        &self.channels
    }

    /// The channel of that name: the first one, should the catalog hold
    /// several.
    pub fn channel(&self, name: &str) -> (r: Option<&Channel>)
        ensures
            ({
                let all = channel_views(self.channels_spec());
                let at = channel_position(all, name@, 0);
                match r {
                    Some(c) => at < all.len() && *c == self.channels_spec()[at],
                    None => at == all.len(),
                }
            }),
    {
        let ghost all = channel_views(self.channels@);
        let wanted = name.to_owned();
        let mut i: usize = 0;
        while i < self.channels.len()
            invariant
                i <= self.channels.len(),
                wanted@ == name@,
                all == channel_views(self.channels@),
                channel_position(all, name@, 0) == channel_position(all, name@, i as int),
            decreases self.channels.len() - i,
        {
            assert(all[i as int] == self.channels@[i as int]@);
            if self.channels[i].name == wanted {
                return Some(&self.channels[i]);
            }
            i += 1;
        }
        None
    }
}

} // verus!
