use core::cmp::Ordering;
use upgradepath::error::EngineError;
use upgradepath::listing::{
    catalog_cache_dir, component_name, list_cache_dir, piece_after, piece_before,
    plan_for_directory, swap_colons,
};
use upgradepath::model::{CatalogRecord, Channel, ChannelEntry, ChannelGraph, PackageRecord};
use upgradepath::ordering::{compare_len_alpha, compare_semver, ordering_of};
use upgradepath::render::{render_channel, render_heading, render_operator, render_package_row};
use upgradepath::schema::FilterOperator;
use upgradepath::text::{
    chars_of, contains, find, find_char, find_last, find_last_char, len_alpha_compare, lex_compare,
    matches_at, Precedence,
};

fn chars(text: &str) -> Vec<char> {
    text.chars().collect()
}

fn filter(name: &str) -> FilterOperator {
    FilterOperator { name: name.to_string(), channel: None, from_version: Some("1.0.0".to_string()) }
}

#[test]
fn colons_become_slashes() {
    assert_eq!(swap_colons("index:v4.15"), "index/v4.15");
    assert_eq!(swap_colons("a:b:c"), "a/b/c");
    assert_eq!(swap_colons(""), "");
}

#[test]
fn cache_directories() {
    assert_eq!(
        catalog_cache_dir("work/", "registry.io/org/index:v4.15"),
        "work/index/v4.15/cache/"
    );
    assert_eq!(catalog_cache_dir("work/", "index:v1"), "work/index/v1/cache/");
    assert_eq!(
        list_cache_dir("work", "org/index:v4.15"),
        "work/org/index/v4.15//amd64/cache/"
    );
}

#[test]
fn pieces_of_a_text() {
    assert_eq!(piece_before("a/b/c", "/"), "a");
    assert_eq!(piece_before("abc", "/"), "abc");
    assert_eq!(piece_after("a--b--c", "--"), Some("b".to_string()));
    assert_eq!(piece_after("a--b", "--"), Some("b".to_string()));
    assert_eq!(piece_after("a--", "--"), Some("".to_string()));
    assert_eq!(piece_after("abc", "--"), None);
}

#[test]
fn component_of_a_directory() {
    assert_eq!(
        component_name("work/cache/configs/etcd/updated-configs"),
        Some("etcd".to_string())
    );
    assert_eq!(component_name("work/cache/configs/etcd"), Some("etcd".to_string()));
    assert_eq!(component_name("work/cache/etcd"), None);
}

#[test]
fn plan_without_filters_is_the_whole_package() {
    let plan = plan_for_directory("work/configs/etcd/updated-configs", &None);
    assert_eq!(
        plan,
        vec![FilterOperator {
            name: "etcd".to_string(),
            channel: Some("all".to_string()),
            from_version: None,
        }]
    );
    assert!(plan_for_directory("work/configs/etcd", &None).is_empty());
    assert!(plan_for_directory("work/updated-configs", &None).is_empty());
}

#[test]
fn plan_with_filters_takes_those_that_the_path_names() {
    let filters = Some(vec![filter("kafka"), filter("etcd"), filter("et")]);
    assert_eq!(
        plan_for_directory("work/configs/etcd/updated-configs", &filters),
        vec![filter("etcd"), filter("et")]
    );
    assert!(plan_for_directory("work/configs/etcd", &filters).is_empty());
    assert!(plan_for_directory("work/configs/nats/updated-configs", &filters).is_empty());
}

#[test]
fn names_order_by_length_then_bytes() {
    let order = |a: &str, b: &str| compare_len_alpha(&a.to_string(), &b.to_string());
    assert_eq!(order("b", "aa"), Ordering::Less);
    assert_eq!(order("aa", "b"), Ordering::Greater);
    assert_eq!(order("ab", "ac"), Ordering::Less);
    assert_eq!(order("ac", "ab"), Ordering::Greater);
    assert_eq!(order("ab", "ab"), Ordering::Equal);
    assert_eq!(order("", ""), Ordering::Equal);
    assert_eq!(order("zz", "\u{e9}"), Ordering::Less);
    assert_eq!(order("\u{e9}", "zz"), Ordering::Greater);
    assert_eq!(len_alpha_compare("v1.10.0", "v1.9.0"), Precedence::Higher);
}

#[test]
fn names_order_by_their_versions() {
    let order = |a: &str, b: &str| compare_semver(&a.to_string(), &b.to_string());
    assert_eq!(order("p.v1.9.0", "p.v1.10.0"), Ok(Ordering::Less));
    assert_eq!(order("p.v2.0.0", "q.v2.0.0"), Ok(Ordering::Equal));
    assert_eq!(order("p.v2.0.0", "p.v2.0.0-rc1"), Ok(Ordering::Greater));
    assert_eq!(order("p.v2.0.0", "broken"), Err(EngineError::MalformedVersion));
    assert_eq!(order("broken", "p.v2.0.0"), Err(EngineError::MalformedVersion));
    assert_eq!(ordering_of(Precedence::Lower), Ordering::Less);
    assert_eq!(ordering_of(Precedence::Same), Ordering::Equal);
    assert_eq!(ordering_of(Precedence::Higher), Ordering::Greater);
}

#[test]
fn searching_texts() {
    let s = chars("a.v1.v2");
    assert_eq!(chars_of("a.v1"), chars("a.v1"));
    assert_eq!(find_char(&s, '.', 0), 1);
    assert_eq!(find_char(&s, '.', 2), 4);
    assert_eq!(find_char(&s, '.', 5), 7);
    assert_eq!(find_char(&s, 'x', 0), 7);
    assert_eq!(find_char(&s, '.', 9), 7);
    assert_eq!(find_last_char(&s, 'v', 99), Some(5));
    assert_eq!(find_last_char(&s, 'v', 7), Some(5));
    assert_eq!(find_last_char(&s, 'v', 5), Some(2));
    assert_eq!(find_last_char(&s, 'v', 2), None);
    assert!(matches_at(&s, &chars(".v"), 1));
    assert!(!matches_at(&s, &chars(".v"), 2));
    assert!(!matches_at(&s, &chars(".v"), 6));
    assert!(matches_at(&s, &chars(""), 7));
    assert!(!matches_at(&s, &chars(""), 8));
    assert_eq!(find(&s, &chars(".v"), 0), Some(1));
    assert_eq!(find(&s, &chars(".v"), 2), Some(4));
    assert_eq!(find(&s, &chars(".v"), 5), None);
    assert_eq!(find(&s, &chars("a.v1.v2x"), 0), None);
    assert_eq!(find_last(&s, &chars(".v"), 7), Some(4));
    assert_eq!(find_last(&s, &chars(".v"), 4), Some(1));
    assert_eq!(find_last(&s, &chars(".v"), 1), None);
    assert!(contains(&s, &chars("v1")));
    assert!(!contains(&s, &chars("v3")));
}

#[test]
fn texts_order_lexicographically() {
    assert_eq!(lex_compare(&chars("abc"), &chars("abd")), Precedence::Lower);
    assert_eq!(lex_compare(&chars("abd"), &chars("abc")), Precedence::Higher);
    assert_eq!(lex_compare(&chars("ab"), &chars("abc")), Precedence::Lower);
    assert_eq!(lex_compare(&chars("abc"), &chars("ab")), Precedence::Higher);
    assert_eq!(lex_compare(&chars("abc"), &chars("abc")), Precedence::Same);
    assert_eq!(lex_compare(&chars(""), &chars("")), Precedence::Same);
}

#[test]
fn list_of_packages() {
    assert_eq!(
        render_heading(),
        vec![
            "".to_string(),
            "\x1b[05C\x1b[1;97mOPERATORS\x1b[0m".to_string(),
            "\x1b[05C\x1b[1;97m-----------------------------------------\x1b[0m".to_string(),
            "".to_string(),
        ]
    );
    assert_eq!(
        render_package_row("work/cache/configs/etcd"),
        Some("\x1b[05C\x1b[0;97metcd\x1b[0m".to_string())
    );
    assert_eq!(render_package_row("work/cache/configs/etcd/updated-configs"), None);
    assert_eq!(render_package_row("work/cache"), None);
}

#[test]
fn table_of_a_package() {
    let entry = |name: &str| ChannelEntry {
        name: name.to_string(),
        replaces: None,
        skips: None,
        skip_range: None,
    };
    let stable = Channel { name: "stable".to_string(), entries: vec![entry("e.v1"), entry("e.v2")] };
    let alpha = Channel { name: "alpha".to_string(), entries: vec![] };
    assert_eq!(
        render_channel(&stable, &"stable".to_string()),
        vec![
            "\x1b[55C\x1b[1;94mstable\x1b[0m\x1b[1A".to_string(),
            "\x1b[85C\x1b[0;97me.v1\x1b[0m".to_string(),
            "\x1b[85C\x1b[0;97me.v2\x1b[0m".to_string(),
            "".to_string(),
        ]
    );
    let graph = ChannelGraph::from_records(vec![
        CatalogRecord::Package(PackageRecord {
            name: "etcd".to_string(),
            default_channel: "stable".to_string(),
        }),
        CatalogRecord::Channel(alpha),
        CatalogRecord::Channel(stable),
    ]);
    assert_eq!(
        render_operator(&graph, "etcd"),
        vec![
            "".to_string(),
            "\x1b[05C\x1b[1;97mOPERATOR\x1b[0m\x1b[42C\x1b[1;97mCHANNELS\x1b[0m\x1b[22C\x1b[1;97mBUNDLES\x1b[0m".to_string(),
            "\x1b[05C\x1b[1;97m------------------------------------------------  ----------------------------  ------------------------------------------\x1b[0m".to_string(),
            "\x1b[05C\x1b[1;97metcd\x1b[0m\x1b[1A".to_string(),
            "\x1b[55Calpha\x1b[1A".to_string(),
            "".to_string(),
            "\x1b[55C\x1b[1;94mstable\x1b[0m\x1b[1A".to_string(),
            "\x1b[85C\x1b[0;97me.v1\x1b[0m".to_string(),
            "\x1b[85C\x1b[0;97me.v2\x1b[0m".to_string(),
            "".to_string(),
        ]
    );
}
