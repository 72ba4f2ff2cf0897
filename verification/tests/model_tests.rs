use upgradepath::error::EngineError;
use upgradepath::model::{CatalogRecord, Channel, ChannelEntry, ChannelGraph, PackageRecord};
use upgradepath::schema::{check_catalog_images, log_level, FilterOperator, LogLevel};

fn channel(name: &str, entries: &[&str]) -> Channel {
    Channel {
        name: name.to_string(),
        entries: entries
            .iter()
            .map(|e| ChannelEntry { name: e.to_string(), replaces: None, skips: None, skip_range: None })
            .collect(),
    }
}

fn package(name: &str, default_channel: &str) -> PackageRecord {
    PackageRecord { name: name.to_string(), default_channel: default_channel.to_string() }
}

#[test]
fn graph_keeps_channels_in_the_order_of_the_catalog() {
    let graph = ChannelGraph::from_records(vec![
        CatalogRecord::Channel(channel("b", &["x.v2.0.0", "x.v1.0.0"])),
        CatalogRecord::Other,
        CatalogRecord::Package(package("x", "a")),
        CatalogRecord::Channel(channel("a", &[])),
    ]);
    let names: Vec<&str> = graph.channels().iter().map(|c| c.name.as_str()).collect();
    assert_eq!(names, vec!["b", "a"]);
    let entries: Vec<&str> = graph.channels()[0].entries.iter().map(|e| e.name.as_str()).collect();
    assert_eq!(entries, vec!["x.v2.0.0", "x.v1.0.0"]);
    assert_eq!(graph.package(), Some(&package("x", "a")));
}

#[test]
fn graph_takes_the_first_package_record() {
    let graph = ChannelGraph::from_records(vec![
        CatalogRecord::Package(package("first", "a")),
        CatalogRecord::Package(package("second", "b")),
    ]);
    assert_eq!(graph.package(), Some(&package("first", "a")));
    assert!(graph.channels().is_empty());
}

#[test]
fn graph_without_package_record() {
    let graph = ChannelGraph::from_records(vec![CatalogRecord::Channel(channel("a", &[]))]);
    assert_eq!(graph.package(), None);
}

#[test]
fn channel_is_found_by_name() {
    let graph = ChannelGraph::from_records(vec![
        CatalogRecord::Channel(channel("a", &["one.v1"])),
        CatalogRecord::Channel(channel("b", &[])),
        CatalogRecord::Channel(channel("a", &["two.v2"])),
    ]);
    assert_eq!(graph.channel("a"), Some(&channel("a", &["one.v1"])));
    assert_eq!(graph.channel("b"), Some(&channel("b", &[])));
    assert_eq!(graph.channel("c"), None);
}

#[test]
fn filter_selects_all_channels_or_the_one_it_names() {
    let mut filter = FilterOperator { name: "p".to_string(), channel: None, from_version: None };
    assert!(filter.selects("stable"));
    filter.channel = Some("all".to_string());
    assert!(filter.selects("stable"));
    filter.channel = Some("stable".to_string());
    assert!(filter.selects("stable"));
    assert!(!filter.selects("alpha"));
}

#[test]
fn filter_start_token() {
    let mut filter = FilterOperator { name: "p".to_string(), channel: None, from_version: None };
    assert_eq!(filter.start_token(), "?");
    filter.from_version = Some("0.0.0".to_string());
    assert_eq!(filter.start_token(), "0.0.0");
    assert_eq!(filter.duplicate(), filter);
}

#[test]
fn catalogs_of_one_base_image_are_in_order() {
    let same = vec![
        "registry.io/org/index:v4.14".to_string(),
        "registry.io/org/index:v4.15".to_string(),
        "registry.io/org/index".to_string(),
    ];
    assert_eq!(check_catalog_images(&same), Ok(()));
    assert_eq!(check_catalog_images(&vec![]), Ok(()));
    assert_eq!(check_catalog_images(&vec!["one:v1".to_string()]), Ok(()));
}

#[test]
fn catalogs_of_several_base_images_are_refused() {
    let mixed = vec![
        "registry.io/org/index:v4.14".to_string(),
        "registry.io/org/other:v4.14".to_string(),
    ];
    assert_eq!(check_catalog_images(&mixed), Err(EngineError::InconsistentCatalogSet));
}

#[test]
fn every_error_has_its_message() {
    assert_eq!(EngineError::MalformedVersion.message(), "malformed version in bundle name");
    assert_eq!(EngineError::InvalidFromVersion.message(), "fromVersion is not a semantic version");
    assert_eq!(
        EngineError::MissingPackageRecord.message(),
        "no package record for the channels given"
    );
    assert_eq!(
        EngineError::InconsistentCatalogSet.message(),
        "catalog images are expected to be the same (except for versions)"
    );
}

#[test]
fn log_level_by_name() {
    assert_eq!(log_level("info"), LogLevel::Info);
    assert_eq!(log_level("debug"), LogLevel::Debug);
    assert_eq!(log_level("trace"), LogLevel::Trace);
    assert_eq!(log_level("loud"), LogLevel::Info);
    assert_eq!(log_level(""), LogLevel::Info);
}
