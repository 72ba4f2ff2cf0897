use upgradepath::error::EngineError;
use upgradepath::isc::Selection;
use upgradepath::model::{CatalogRecord, Channel, ChannelEntry, ChannelGraph, PackageRecord};
use upgradepath::report::{copy_texts, evaluate_channels, join_texts, list_channel_info};
use upgradepath::schema::FilterOperator;
use upgradepath::version::Version;

fn entry(name: &str, replaces: Option<&str>, skip_range: Option<&str>) -> ChannelEntry {
    ChannelEntry {
        name: name.to_string(),
        replaces: replaces.map(|r| r.to_string()),
        skips: None,
        skip_range: skip_range.map(|r| r.to_string()),
    }
}

fn records(with_package: bool) -> Vec<CatalogRecord> {
    let mut all = vec![
        CatalogRecord::Other,
        CatalogRecord::Channel(Channel {
            name: "alpha".to_string(),
            entries: vec![entry("etcd.v0.9.0", None, None)],
        }),
        CatalogRecord::Channel(Channel {
            name: "stable".to_string(),
            entries: vec![
                entry("etcd.v1.0.0", None, Some(">=0.9.0 <1.0.0")),
                entry("etcd.v1.1.0", Some("etcd.v1.0.0"), Some(">=0.8.0 <1.1.0")),
            ],
        }),
    ];
    if with_package {
        all.insert(
            1,
            CatalogRecord::Package(PackageRecord {
                name: "etcd".to_string(),
                default_channel: "stable".to_string(),
            }),
        );
    }
    all
}

fn filter(channel: Option<&str>, from_version: Option<&str>) -> FilterOperator {
    FilterOperator {
        name: "etcd".to_string(),
        channel: channel.map(|c| c.to_string()),
        from_version: from_version.map(|v| v.to_string()),
    }
}

fn lines(list: &[&str]) -> Vec<String> {
    list.iter().map(|s| s.to_string()).collect()
}

#[test]
fn report_of_every_channel() {
    let graph = ChannelGraph::from_records(records(true));
    let report = list_channel_info(&graph, &filter(None, None)).unwrap();
    assert_eq!(report.operator, "etcd");
    assert_eq!(report.default_channel, Some("stable".to_string()));
    assert_eq!(report.channels.len(), 2);
    assert_eq!(report.channels[0].channel, "alpha");
    assert_eq!(report.channels[0].frontier.path, "? -> etcd.v0.9.0");
    assert_eq!(report.channels[1].channel, "stable");
    assert_eq!(report.channels[1].frontier.path, "? -> etcd.v1.1.0");
    assert_eq!(
        report.lines(),
        lines(&[
            "operator 'etcd'",
            "  defaultChannel stable",
            "  channel name alpha",
            "    suggested upgrade path",
            "    from ? -> etcd.v0.9.0",
            "  channel name stable",
            "    suggested upgrade path",
            "    from ? -> etcd.v1.1.0",
            "    skip_range >=0.8.0 <1.1.0, >=0.9.0 <1.0.0",
        ])
    );
}

#[test]
fn report_of_the_channel_named() {
    let graph = ChannelGraph::from_records(records(true));
    let all = list_channel_info(&graph, &filter(Some("all"), Some("1.0.0"))).unwrap();
    assert_eq!(all.channels.len(), 2);
    assert_eq!(all.channels[0].frontier.path, "1.0.0");
    let one = list_channel_info(&graph, &filter(Some("alpha"), Some("0.1.0"))).unwrap();
    assert_eq!(one.channels.len(), 1);
    assert_eq!(one.channels[0].channel, "alpha");
    assert_eq!(one.channels[0].frontier.path, "0.1.0 -> etcd.v0.9.0");
    let none = list_channel_info(&graph, &filter(Some("beta"), None)).unwrap();
    assert!(none.channels.is_empty());
    assert_eq!(none.lines(), lines(&["operator 'etcd'", "  defaultChannel stable"]));
}

#[test]
fn report_refuses_a_starting_version_that_is_none() {
    let graph = ChannelGraph::from_records(records(true));
    assert_eq!(
        list_channel_info(&graph, &filter(None, Some("one"))),
        Err(EngineError::InvalidFromVersion)
    );
}

#[test]
fn selection_is_the_frontier_of_the_default_channel() {
    let graph = ChannelGraph::from_records(records(true));
    let report = list_channel_info(&graph, &filter(None, None)).unwrap();
    assert_eq!(
        report.selection(),
        Ok(Some(Selection { package: "etcd".to_string(), bundles: vec!["etcd.v1.1.0".to_string()] }))
    );
    let expected = "---\napiVersion: mirror.openshift/v2alpha1\nkind: ImageSetConfiguration\nmetadata:\n  name: ImageSetConfiguration\n  annotations:\n    autogenerated: 'rust-catalog-introspection-tool'\nmirror:\n  operators:\n    - packages:\n        - bundles:\n            - name: etcd.v1.1.0\n";
    assert_eq!(report.manifest("v2alpha1"), Ok(Some(expected.to_string())));
}

#[test]
fn no_selection_where_the_default_channel_gives_nothing() {
    let graph = ChannelGraph::from_records(records(true));
    let late = list_channel_info(&graph, &filter(None, Some("9.0.0"))).unwrap();
    assert_eq!(late.selection(), Ok(None));
    assert_eq!(late.manifest("v2alpha1"), Ok(None));
    let other = list_channel_info(&graph, &filter(Some("alpha"), None)).unwrap();
    assert_eq!(other.selection(), Ok(None));
}

#[test]
fn missing_package_record_is_reported_and_emits_nothing() {
    let graph = ChannelGraph::from_records(records(false));
    let report = list_channel_info(&graph, &filter(None, None)).unwrap();
    assert_eq!(report.default_channel, None);
    assert_eq!(report.lines()[1], "  defaultChannel ?");
    assert_eq!(report.selection(), Err(EngineError::MissingPackageRecord));
    assert_eq!(report.manifest("v2alpha1"), Err(EngineError::MissingPackageRecord));
}

#[test]
fn empty_catalog_is_in_order() {
    let graph = ChannelGraph::from_records(vec![]);
    let report = list_channel_info(&graph, &filter(None, None)).unwrap();
    assert!(report.channels.is_empty());
    assert_eq!(report.lines(), lines(&["operator 'etcd'", "  defaultChannel ?"]));
}

#[test]
fn evaluation_from_a_version_given() {
    let graph = ChannelGraph::from_records(records(true));
    let current = Version { major: 1, minor: 0, patch: 5, pre: String::new() };
    let report = evaluate_channels(&graph, &filter(Some("stable"), Some("1.0.5")), &current);
    assert_eq!(report.channels.len(), 1);
    assert_eq!(report.channels[0].frontier.entries, lines(&["etcd.v1.1.0"]));
    assert_eq!(report.channels[0].frontier.skip_ranges, lines(&[">=0.8.0 <1.1.0"]));
    assert_eq!(
        report.channels[0].lines(),
        lines(&[
            "  channel name stable",
            "    suggested upgrade path",
            "    from 1.0.5 -> etcd.v1.1.0",
            "    skip_range >=0.8.0 <1.1.0",
        ])
    );
}

#[test]
fn texts_are_copied_and_joined() {
    let list = lines(&["a", "b", "c"]);
    assert_eq!(copy_texts(&list), list);
    assert_eq!(join_texts(&list), "a, b, c");
    assert_eq!(join_texts(&lines(&["only"])), "only");
    assert_eq!(join_texts(&lines(&[])), "");
}
