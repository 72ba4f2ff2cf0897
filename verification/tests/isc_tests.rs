use upgradepath::isc::{emit, manifest_for, Bundle, Catalog, IscV3Alpha1, Package, Selection};

const HEAD: &str = "---\napiVersion: mirror.openshift/v3alpha1\nkind: ImageSetConfiguration\nmetadata:\n  name: ImageSetConfiguration\n  annotations:\n    autogenerated: 'rust-catalog-introspection-tool'\nmirror:\n  operators:\n";

fn bundle(name: &str) -> Bundle {
    Bundle { name: name.to_string() }
}

fn selection(package: &str, bundles: &[&str]) -> Selection {
    Selection {
        package: package.to_string(),
        bundles: bundles.iter().map(|b| b.to_string()).collect(),
    }
}

#[test]
fn new_configuration_is_empty_and_of_version_v3alpha1() {
    let isc = IscV3Alpha1::new();
    assert_eq!(isc.api_version, "v3alpha1");
    assert!(isc.operators.is_empty());
}

#[test]
fn empty_configuration_is_the_head_alone() {
    assert_eq!(IscV3Alpha1::new().to_yaml(), HEAD);
}

#[test]
fn defaults_are_empty() {
    assert_eq!(Bundle::default(), bundle(""));
    assert_eq!(Package::default(), Package { name: String::new(), bundles: vec![] });
    assert_eq!(Catalog::default(), Catalog { packages: vec![] });
    assert_eq!(IscV3Alpha1::default(), IscV3Alpha1 { api_version: String::new(), operators: vec![] });
}

#[test]
fn document_has_the_fixed_shape() {
    let mut isc = IscV3Alpha1::new();
    let mut catalog = Catalog::default();
    let mut package = Package::default();
    package.name = "etcd".to_string();
    package.bundles.push(bundle("etcd.v1.0.0"));
    package.bundles.push(bundle("etcd.v1.1.0"));
    catalog.packages.push(package);
    isc.operators.push(catalog);
    let expected = format!(
        "{}{}",
        HEAD,
        "    - packages:\n        - bundles:\n            - name: etcd.v1.0.0\n            - name: etcd.v1.1.0\n"
    );
    assert_eq!(isc.to_yaml(), expected);
}

#[test]
fn document_lists_catalogs_and_packages_in_order() {
    let isc = IscV3Alpha1 {
        api_version: "v2alpha1".to_string(),
        operators: vec![
            Catalog {
                packages: vec![
                    Package { name: "a".to_string(), bundles: vec![bundle("a.v1")] },
                    Package { name: "b".to_string(), bundles: vec![] },
                ],
            },
            Catalog { packages: vec![] },
            Catalog { packages: vec![Package { name: "c".to_string(), bundles: vec![bundle("c.v2")] }] },
        ],
    };
    let expected = "---\napiVersion: mirror.openshift/v2alpha1\nkind: ImageSetConfiguration\nmetadata:\n  name: ImageSetConfiguration\n  annotations:\n    autogenerated: 'rust-catalog-introspection-tool'\nmirror:\n  operators:\n    - packages:\n        - bundles:\n            - name: a.v1\n        - bundles:\n    - packages:\n    - packages:\n        - bundles:\n            - name: c.v2\n";
    assert_eq!(isc.to_yaml(), expected);
}

#[test]
fn emit_writes_a_block_for_each_package_with_bundles() {
    let text = emit(
        "v3alpha1",
        &vec![
            selection("etcd", &["etcd.v1.2.0"]),
            selection("empty", &[]),
            selection("kafka", &["kafka.v2.0.0", "kafka.v2.1.0"]),
        ],
    );
    let expected = format!(
        "{}{}",
        HEAD,
        "    - packages:\n        - bundles:\n            - name: etcd.v1.2.0\n    - packages:\n        - bundles:\n            - name: kafka.v2.0.0\n            - name: kafka.v2.1.0\n"
    );
    assert_eq!(text, expected);
}

#[test]
fn emit_of_nothing_is_the_head_alone() {
    assert_eq!(emit("v3alpha1", &vec![]), HEAD);
}

#[test]
fn manifest_for_keeps_names_and_order() {
    let isc = manifest_for("v9", &vec![selection("p", &["p.v2", "p.v1"]), selection("q", &[])]);
    assert_eq!(
        isc,
        IscV3Alpha1 {
            api_version: "v9".to_string(),
            operators: vec![Catalog {
                packages: vec![Package {
                    name: "p".to_string(),
                    bundles: vec![bundle("p.v2"), bundle("p.v1")],
                }],
            }],
        }
    );
}
