//! The evaluation of one package: the frontier of each channel that the
//! filter selects, the lines of the report, and the bundles that go into
//! the manifest.

use crate::error::EngineError;
use crate::frontier::{frontier_from, frontier_of, start_version, Frontier, FrontierView};
use crate::isc::{emit, manifest_of, yaml_text, Selection, SelectionView};
use crate::model::{channel_views, texts, ChannelGraph, ChannelView};
use crate::schema::{unknown_mark, FilterOperator};
use crate::semver_glue::parse_semver;
use crate::version::{Version, VersionView};
use vstd::prelude::*;
use vstd::string::*;

verus! {

/// The frontier of one channel.
#[derive(Clone, Debug, PartialEq, Eq)]
pub struct ChannelReport {
    pub channel: String,
    pub frontier: Frontier,
}

/// What a [`ChannelReport`] stands for.
pub struct ChannelReportView {
    pub channel: Seq<char>,
    pub frontier: FrontierView,
}

impl View for ChannelReport {
    type V = ChannelReportView;

    open spec fn view(&self) -> ChannelReportView {
        ChannelReportView { channel: self.channel@, frontier: self.frontier@ }
    }
}

/// The evaluation of one package.
#[derive(Clone, Debug, PartialEq, Eq)]
pub struct PackageReport {
    /// The package, as the filter names it.
    pub operator: String,
    /// The default channel; `None` where the catalog held no package record.
    pub default_channel: Option<String>,
    /// One report for each channel that the filter selects, in the order of
    /// the catalog.
    pub channels: Vec<ChannelReport>,
}

/// What a [`PackageReport`] stands for.
pub struct PackageReportView {
    pub operator: Seq<char>,
    pub default_channel: Option<Seq<char>>,
    pub channels: Seq<ChannelReportView>,
}

impl View for PackageReport {
    type V = PackageReportView;

    open spec fn view(&self) -> PackageReportView {
        PackageReportView {
            operator: self.operator@,
            default_channel: match self.default_channel {
                Some(d) => Some(d@),
                None => None,
            },
            channels: self.channels@.map_values(|c: ChannelReport| c@),
        }
    }
}

/// The reports of those among the first `n` channels that the filter
/// selects, in their order.
pub open spec fn channel_reports(
    channels: Seq<ChannelView>,
    filter: FilterOperator,
    current: VersionView,
    n: int,
) -> Seq<ChannelReportView>
    decreases n,
{
    if n <= 0 {
        Seq::empty()
    } else if filter.selects_text(channels[n - 1].name) {
        channel_reports(channels, filter, current, n - 1).push(
            ChannelReportView {
                channel: channels[n - 1].name,
                frontier: frontier_of(channels[n - 1].entries, current, filter.start_text()),
            },
        )
    } else {
        channel_reports(channels, filter, current, n - 1)
    }
}

/// The evaluation of a package for an upgrade from `current`.
pub open spec fn package_report(
    graph: ChannelGraph,
    filter: FilterOperator,
    current: VersionView,
) -> PackageReportView {
    PackageReportView {
        operator: filter.name@,
        default_channel: match graph.package_spec() {
            Some(p) => Some(p.default_channel@),
            None => None,
        },
        channels: channel_reports(
            channel_views(graph.channels_spec()),
            filter,
            current,
            graph.channels_spec().len() as int,
        ),
    }
}

/// Position of the first report on the channel named `name`, from `from`
/// on; the number of reports where there is none.
pub open spec fn report_position(reports: Seq<ChannelReportView>, name: Seq<char>, from: int) -> int
    decreases reports.len() - from,
{
    if from >= reports.len() {
        reports.len() as int
    } else if from >= 0 && reports[from].channel == name {
        from
    } else {
        report_position(reports, name, from + 1)
    }
}

/// The bundles that go into the manifest: the frontier of the default
/// channel, where it was evaluated and is not empty.  Without a package
/// record there is no default channel, and nothing is emitted.
pub open spec fn selection_of(report: PackageReportView) -> Result<
    Option<SelectionView>,
    EngineError,
> {
    match report.default_channel {
        None => Err(EngineError::MissingPackageRecord),
        Some(default) => {
            let at = report_position(report.channels, default, 0);
            if at < report.channels.len() && report.channels[at].frontier.entries.len() > 0 {
                Ok(
                    Some(
                        SelectionView {
                            package: report.operator,
                            bundles: report.channels[at].frontier.entries,
                        },
                    ),
                )
            } else {
                Ok(None)
            }
        },
    }
}

/// The separator between two items of a list in a report line.
pub open spec fn comma() -> Seq<char> {
    ", "@
}

/// The first `n` items, separated by commas.
pub open spec fn joined(items: Seq<Seq<char>>, n: int) -> Seq<char>
    decreases n,
{
    if n <= 0 {
        Seq::empty()
    } else if n == 1 {
        items[0]
    } else {
        joined(items, n - 1) + comma() + items[n - 1]
    }
}

/// The lines that report one channel: its name, the suggested path, and
/// the skip ranges where there are any.
pub open spec fn channel_lines(report: ChannelReportView) -> Seq<Seq<char>> {
    let lines = seq![
        "  channel name "@ + report.channel,
        "    suggested upgrade path"@,
        "    from "@ + report.frontier.path,
    ];
    if report.frontier.skip_ranges.len() > 0 {
        lines.push(
            "    skip_range "@ + joined(
                report.frontier.skip_ranges,
                report.frontier.skip_ranges.len() as int,
            ),
        )
    } else {
        lines
    }
}

/// The lines that report the first `n` channels.
pub open spec fn channels_lines(reports: Seq<ChannelReportView>, n: int) -> Seq<Seq<char>>
    decreases n,
{
    if n <= 0 {
        Seq::empty()
    } else {
        channels_lines(reports, n - 1) + channel_lines(reports[n - 1])
    }
}

/// The lines of the whole report: the package, its default channel (`?`
/// where it is unknown), then the channels.
pub open spec fn report_text(report: PackageReportView) -> Seq<Seq<char>> {
    seq![
        "operator '"@ + report.operator + "'"@,
        "  defaultChannel "@ + match report.default_channel {
            Some(d) => d,
            None => unknown_mark(),
        },
    ] + channels_lines(report.channels, report.channels.len() as int)
}

/// A copy of a list of strings.
pub fn copy_texts(list: &Vec<String>) -> (r: Vec<String>)
    ensures
        texts(r@) == texts(list@),
{
    let mut r: Vec<String> = Vec::new();
    let mut i: usize = 0;
    while i < list.len()
        invariant
            i <= list.len(),
            r.len() == i,
            forall|j: int| 0 <= j < i ==> (#[trigger] r[j])@ == list[j]@,
        decreases list.len() - i,
    {
        r.push(list[i].clone());
        i += 1;
    }
    assert(texts(r@) =~= texts(list@));
    r
}

/// Writes the items with commas between them.
pub fn join_texts(items: &Vec<String>) -> (r: String)
    ensures
        r@ == joined(texts(items@), items.len() as int),
{
    let ghost all = texts(items@);
    let mut r = String::new();
    let mut i: usize = 0;
    while i < items.len()
        invariant
            i <= items.len(),
            all == texts(items@),
            r@ == joined(all, i as int),
        decreases items.len() - i,
    {
        assert(all[i as int] == items[i as int]@);
        if i > 0 {
            r.append(", ");
        } else {
            assert(r@ + items[0]@ =~= items[0]@);
        }
        r.append(items[i].as_str());
        i += 1;
    }
    r
}

impl ChannelReport {
    /// The lines that report this channel.
    pub fn lines(&self) -> (r: Vec<String>)
        ensures
            texts(r@) == channel_lines(self@),
    {
        let mut r: Vec<String> = Vec::new();
        let mut name = "  channel name ".to_owned();
        name.append(self.channel.as_str());
        r.push(name);
        r.push("    suggested upgrade path".to_owned());
        let mut from = "    from ".to_owned();
        from.append(self.frontier.path.as_str());
        r.push(from);
        if self.frontier.skip_ranges.len() > 0 {
            let mut ranges = "    skip_range ".to_owned();
            ranges.append(join_texts(&self.frontier.skip_ranges).as_str());
            r.push(ranges);
        }
        assert(texts(r@) =~= channel_lines(self@));
        r
    }
}

impl PackageReport {
    /// The bundles that go into the manifest.
    pub fn selection(&self) -> (r: Result<Option<Selection>, EngineError>)
        ensures
            match r {
                Ok(Some(s)) => selection_of(self@) == Ok::<Option<SelectionView>, EngineError>(
                    Some(s@),
                ),
                Ok(None) => selection_of(self@) == Ok::<Option<SelectionView>, EngineError>(None),
                Err(e) => selection_of(self@) == Err::<Option<SelectionView>, EngineError>(e),
            },
    {
        let ghost reports = self@.channels;
        match &self.default_channel {
            None => Err(EngineError::MissingPackageRecord),
            Some(default) => {
                let mut i: usize = 0;
                while i < self.channels.len()
                    invariant
                        i <= self.channels.len(),
                        reports == self@.channels,
                        self@.default_channel == Some(default@),
                        report_position(reports, default@, 0) == report_position(
                            reports,
                            default@,
                            i as int,
                        ),
                    decreases self.channels.len() - i,
                {
                    assert(reports[i as int] == self.channels[i as int]@);
                    if self.channels[i].channel == *default {
                        assert(reports[i as int].frontier.entries.len()
                            == self.channels[i as int].frontier.entries.len());
                        if self.channels[i].frontier.entries.len() > 0 {
                            return Ok(
                                Some(
                                    Selection {
                                        package: self.operator.clone(),
                                        bundles: copy_texts(&self.channels[i].frontier.entries),
                                    },
                                ),
                            );
                        } else {
                            return Ok(None);
                        }
                    }
                    i += 1;
                }
                Ok(None)
            },
        }
    }

    /// The manifest for this package: `Ok(None)` where the default channel
    /// gives no bundle, `MissingPackageRecord` where the default channel is
    /// not known.
    pub fn manifest(&self, api_version: &str) -> (r: Result<Option<String>, EngineError>)
        ensures
            match (r, selection_of(self@)) {
                (Ok(Some(text)), Ok(Some(s))) => text@ == yaml_text(manifest_of(api_version@, seq![s])),
                (Ok(None), Ok(None)) => true,
                (Err(e), Err(f)) => e == f,
                _ => false,
            },
    {
        match self.selection() {
            Ok(Some(selection)) => {
                let mut selections: Vec<Selection> = Vec::new();
                let ghost s = selection@;
                selections.push(selection);
                assert(selections@.map_values(|x: Selection| x@) =~= seq![s]);
                Ok(Some(emit(api_version, &selections)))
            },
            Ok(None) => Ok(None),
            Err(e) => Err(e),
        }
    }

    /// The lines of the report.
    pub fn lines(&self) -> (r: Vec<String>)
        ensures
            texts(r@) == report_text(self@),
    {
        let ghost reports = self@.channels;
        let mut r: Vec<String> = Vec::new();
        let mut operator = "operator '".to_owned();
        operator.append(self.operator.as_str());
        operator.append("'");
        r.push(operator);
        let mut default = "  defaultChannel ".to_owned();
        match &self.default_channel {
            Some(d) => default.append(d.as_str()),
            None => default.append("?"),
        }
        r.push(default);
        let ghost head = texts(r@);
        assert(head =~= report_text(self@).take(2));
        let mut i: usize = 0;
        while i < self.channels.len()
            invariant
                i <= self.channels.len(),
                reports == self@.channels,
                texts(r@) =~= head + channels_lines(reports, i as int),
            decreases self.channels.len() - i,
        {
            assert(reports[i as int] == self.channels[i as int]@);
            let mut block = self.channels[i].lines();
            let ghost before = r@;
            let ghost added = block@;
            r.append(&mut block);
            assert(texts(r@) =~= texts(before) + texts(added));
            i += 1;
        }
        assert(texts(r@) =~= report_text(self@));
        r
    }
}

/// The evaluation of a package for an upgrade from `current`: a frontier
/// for each channel that the filter selects.
pub fn evaluate_channels(graph: &ChannelGraph, filter: &FilterOperator, current: &Version) -> (r:
    PackageReport)
    ensures
        r@ == package_report(*graph, *filter, current@),
{
    let channels = graph.channels();
    let ghost views = channel_views(channels@);
    let start = filter.start_token();
    let mut reports: Vec<ChannelReport> = Vec::new();
    let mut i: usize = 0;
    while i < channels.len()
        invariant
            i <= channels.len(),
            channels@ == graph.channels_spec(),
            views == channel_views(channels@),
            start@ == filter.start_text(),
            reports@.map_values(|c: ChannelReport| c@) =~= channel_reports(
                views,
                *filter,
                current@,
                i as int,
            ),
        decreases channels.len() - i,
    {
        let channel = &channels[i];
        assert(views[i as int] == channel@);
        if filter.selects(channel.name.as_str()) {
            let frontier = frontier_from(channel, current, start.as_str());
            let ghost before = reports@;
            let report = ChannelReport { channel: channel.name.clone(), frontier };
            reports.push(report);
            assert(reports@.map_values(|c: ChannelReport| c@) =~= before.map_values(
                |c: ChannelReport| c@,
            ).push(report@));
        }
        i += 1;
    }
    let default_channel = match graph.package() {
        Some(p) => Some(p.default_channel.clone()),
        None => None,
    };
    PackageReport { operator: filter.name.clone(), default_channel, channels: reports }
}

/// The evaluation of a package for the upgrade that `filter` asks for.
///
/// The starting version is read as a semantic version; where it is none,
/// the evaluation fails with `InvalidFromVersion`.
pub fn list_channel_info(graph: &ChannelGraph, filter: &FilterOperator) -> (r: Result<
    PackageReport,
    EngineError,
>)
    ensures
        match r {
            Ok(report) => start_version(*filter) is Some && report@ == package_report(
                *graph,
                *filter,
                start_version(*filter).unwrap(),
            ),
            Err(e) => e == EngineError::InvalidFromVersion && start_version(*filter) is None,
        },
{
    match &filter.from_version {
        Some(text) => match parse_semver(text.as_str()) {
            Some(current) => Ok(evaluate_channels(graph, filter, &current)),
            None => Err(EngineError::InvalidFromVersion),
        },
        None => Ok(evaluate_channels(graph, filter, &Version::zero())),
    }
}

} // verus!
