//! The manifest emitter: an image set configuration listing the bundles of
//! an upgrade path, written as a document of fixed shape.  Key order and
//! indentation are part of the contract; nothing is validated.

use crate::model::texts;
use vstd::prelude::*;
use vstd::string::*;

verus! {

/// One bundle of a package.
#[derive(Clone, Debug, PartialEq, Eq)]
pub struct Bundle {
    pub name: String,
}

/// A package with the bundles chosen for it.
#[derive(Clone, Debug, PartialEq, Eq)]
pub struct Package {
    pub name: String,
    pub bundles: Vec<Bundle>,
}

/// The packages taken from one catalog.
#[derive(Clone, Debug, PartialEq, Eq)]
pub struct Catalog {
    pub packages: Vec<Package>,
}

/// An image set configuration.
#[derive(Clone, Debug, PartialEq, Eq)]
pub struct IscV3Alpha1 {
    pub api_version: String,
    pub operators: Vec<Catalog>,
}

/// What a [`Bundle`] stands for.
pub struct BundleView {
    pub name: Seq<char>,
}

/// What a [`Package`] stands for.
pub struct PackageView {
    pub name: Seq<char>,
    pub bundles: Seq<BundleView>,
}

/// What a [`Catalog`] stands for.
pub struct CatalogView {
    pub packages: Seq<PackageView>,
}

/// What an [`IscV3Alpha1`] stands for.
pub struct IscView {
    pub api_version: Seq<char>,
    pub operators: Seq<CatalogView>,
}

impl View for Bundle {
    type V = BundleView;

    open spec fn view(&self) -> BundleView {
        BundleView { name: self.name@ }
    }
}

impl View for Package {
    type V = PackageView;

    open spec fn view(&self) -> PackageView {
        PackageView { name: self.name@, bundles: self.bundles@.map_values(|b: Bundle| b@) }
    }
}

impl View for Catalog {
    type V = CatalogView;

    open spec fn view(&self) -> CatalogView {
        CatalogView { packages: self.packages@.map_values(|p: Package| p@) }
    }
}

impl View for IscV3Alpha1 {
    type V = IscView;

    open spec fn view(&self) -> IscView {
        IscView {
            api_version: self.api_version@,
            operators: self.operators@.map_values(|c: Catalog| c@),
        }
    }
}

/// The head of the document, up to the list of operators.
pub open spec fn head_text(api_version: Seq<char>) -> Seq<char> {
    "---\napiVersion: mirror.openshift/"@ + api_version
        + "\nkind: ImageSetConfiguration\nmetadata:\n  name: ImageSetConfiguration\n  annotations:\n    autogenerated: 'rust-catalog-introspection-tool'\nmirror:\n  operators:\n"@
}

/// The lines of the first `n` bundles: one `name` item each.
pub open spec fn bundle_lines(bundles: Seq<BundleView>, n: int) -> Seq<char>
    decreases n,
{
    if n <= 0 {
        Seq::empty()
    } else {
        bundle_lines(bundles, n - 1) + "            - name: "@ + bundles[n - 1].name + "\n"@
    }
}

/// The lines of the first `n` packages: a `bundles` item each, with the
/// lines of its bundles.
pub open spec fn package_lines(packages: Seq<PackageView>, n: int) -> Seq<char>
    decreases n,
{
    if n <= 0 {
        Seq::empty()
    } else {
        package_lines(packages, n - 1) + "        - bundles:\n"@ + bundle_lines(
            packages[n - 1].bundles,
            packages[n - 1].bundles.len() as int,
        )
    }
}

/// The lines of the first `n` catalogs: a `packages` item each, with the
/// lines of its packages.
pub open spec fn catalog_lines(catalogs: Seq<CatalogView>, n: int) -> Seq<char>
    decreases n,
{
    if n <= 0 {
        Seq::empty()
    } else {
        catalog_lines(catalogs, n - 1) + "    - packages:\n"@ + package_lines(
            catalogs[n - 1].packages,
            catalogs[n - 1].packages.len() as int,
        )
    }
}

/// The whole document.
pub open spec fn yaml_text(isc: IscView) -> Seq<char> {
    head_text(isc.api_version) + catalog_lines(isc.operators, isc.operators.len() as int)
}

impl Default for Bundle {
    fn default() -> (r: Bundle)
        ensures
            r@ == (BundleView { name: Seq::empty() }),
    {
        Bundle { name: String::new() }
    }
}

impl Default for Package {
    fn default() -> (r: Package)
        ensures
            r@ == (PackageView { name: Seq::empty(), bundles: Seq::empty() }),
    {
        let r = Package { name: String::new(), bundles: Vec::new() };
        assert(r@.bundles =~= Seq::<BundleView>::empty());
        r
    }
}

impl Default for Catalog {
    fn default() -> (r: Catalog)
        ensures
            r@ == (CatalogView { packages: Seq::empty() }),
    {
        let r = Catalog { packages: Vec::new() };
        assert(r@.packages =~= Seq::<PackageView>::empty());
        r
    }
}

impl Default for IscV3Alpha1 {
    fn default() -> (r: IscV3Alpha1)
        ensures
            r@ == (IscView { api_version: Seq::empty(), operators: Seq::empty() }),
    {
        let r = IscV3Alpha1 { api_version: String::new(), operators: Vec::new() };
        assert(r@.operators =~= Seq::<CatalogView>::empty());
        r
    }
}

fn write_bundles(bundles: &Vec<Bundle>) -> (out: String)
    ensures
        out@ == bundle_lines(
            bundles@.map_values(|b: Bundle| b@),
            bundles.len() as int,
        ),
{
    let ghost all = bundles@.map_values(|b: Bundle| b@);
    let mut out = String::new();
    let mut i: usize = 0;
    while i < bundles.len()
        invariant
            i <= bundles.len(),
            all == bundles@.map_values(|b: Bundle| b@),
            out@ == bundle_lines(all, i as int),
        decreases bundles.len() - i,
    {
        assert(all[i as int] == bundles[i as int]@);
        out.append("            - name: ");
        out.append(bundles[i].name.as_str());
        out.append("\n");
        i += 1;
    }
    out
}

fn write_packages(packages: &Vec<Package>) -> (out: String)
    ensures
        out@ == package_lines(packages@.map_values(|p: Package| p@), packages.len() as int),
{
    let ghost all = packages@.map_values(|p: Package| p@);
    let mut out = String::new();
    let mut i: usize = 0;
    while i < packages.len()
        invariant
            i <= packages.len(),
            all == packages@.map_values(|p: Package| p@),
            out@ == package_lines(all, i as int),
        decreases packages.len() - i,
    {
        assert(all[i as int] == packages[i as int]@);
        out.append("        - bundles:\n");
        let block = write_bundles(&packages[i].bundles);
        out.append(block.as_str());
        i += 1;
    }
    out
}

fn write_catalogs(catalogs: &Vec<Catalog>) -> (out: String)
    ensures
        out@ == catalog_lines(catalogs@.map_values(|c: Catalog| c@), catalogs.len() as int),
{
    let ghost all = catalogs@.map_values(|c: Catalog| c@);
    let mut out = String::new();
    let mut i: usize = 0;
    while i < catalogs.len()
        invariant
            i <= catalogs.len(),
            all == catalogs@.map_values(|c: Catalog| c@),
            out@ == catalog_lines(all, i as int),
        decreases catalogs.len() - i,
    {
        assert(all[i as int] == catalogs[i as int]@);
        out.append("    - packages:\n");
        let block = write_packages(&catalogs[i].packages);
        out.append(block.as_str());
        i += 1;
    }
    out
}

impl IscV3Alpha1 {
    /// An empty configuration of API version `v3alpha1`.
    pub fn new() -> (r: IscV3Alpha1)
        ensures
            r@ == (IscView { api_version: "v3alpha1"@, operators: Seq::empty() }),
    {
        let r = IscV3Alpha1 { api_version: "v3alpha1".to_owned(), operators: Vec::new() };
        assert(r@.operators =~= Seq::<CatalogView>::empty());
        r
    }

    /// The configuration as a document.
    pub fn to_yaml(&self) -> (r: String)
        ensures
            r@ == yaml_text(self@),
    {
        let mut out = "---\napiVersion: mirror.openshift/".to_owned();
        out.append(self.api_version.as_str());
        out.append(
            "\nkind: ImageSetConfiguration\nmetadata:\n  name: ImageSetConfiguration\n  annotations:\n    autogenerated: 'rust-catalog-introspection-tool'\nmirror:\n  operators:\n",
        );
        let body = write_catalogs(&self.operators);
        out.append(body.as_str());
        out
    }
}

/// The bundles chosen for one package.
#[derive(Clone, Debug, PartialEq, Eq)]
pub struct Selection {
    pub package: String,
    pub bundles: Vec<String>,
}

/// What a [`Selection`] stands for.
pub struct SelectionView {
    pub package: Seq<char>,
    pub bundles: Seq<Seq<char>>,
}

impl View for Selection {
    type V = SelectionView;

    open spec fn view(&self) -> SelectionView {
        SelectionView { package: self.package@, bundles: texts(self.bundles@) }
    }
}

/// The catalog entry that lists one selection: its package with its
/// bundles, in their order.
pub open spec fn selection_block(s: SelectionView) -> CatalogView {
    CatalogView {
        packages: seq![
            PackageView {
                name: s.package,
                bundles: s.bundles.map_values(|b: Seq<char>| BundleView { name: b }),
            },
        ],
    }
}

/// One catalog entry for each of the first `n` selections that holds a
/// bundle, in their order.
pub open spec fn selection_blocks(selections: Seq<SelectionView>, n: int) -> Seq<CatalogView>
    decreases n,
{
    if n <= 0 {
        Seq::empty()
    } else if selections[n - 1].bundles.len() > 0 {
        selection_blocks(selections, n - 1).push(selection_block(selections[n - 1]))
    } else {
        selection_blocks(selections, n - 1)
    }
}

/// The configuration that lists the selections.
pub open spec fn manifest_of(api_version: Seq<char>, selections: Seq<SelectionView>) -> IscView {
    IscView {
        api_version,
        operators: selection_blocks(selections, selections.len() as int),
    }
}

/// The configuration that lists the selections: a block for each package
/// with at least one bundle.
pub fn manifest_for(api_version: &str, selections: &Vec<Selection>) -> (r: IscV3Alpha1)
    ensures
        r@ == manifest_of(api_version@, selections@.map_values(|s: Selection| s@)),
{
    let ghost all = selections@.map_values(|s: Selection| s@);
    let mut operators: Vec<Catalog> = Vec::new();
    let mut i: usize = 0;
    while i < selections.len()
        invariant
            i <= selections.len(),
            all == selections@.map_values(|s: Selection| s@),
            operators@.map_values(|c: Catalog| c@) =~= selection_blocks(all, i as int),
        decreases selections.len() - i,
    {
        let selection = &selections[i];
        assert(all[i as int] == selection@);
        if selection.bundles.len() > 0 {
            let mut bundles: Vec<Bundle> = Vec::new();
            let mut k: usize = 0;
            while k < selection.bundles.len()
                invariant
                    k <= selection.bundles.len(),
                    bundles.len() == k,
                    forall|j: int|
                        0 <= j < k ==> (#[trigger] bundles[j]).name@ == selection.bundles[j]@,
                decreases selection.bundles.len() - k,
            {
                bundles.push(Bundle { name: selection.bundles[k].clone() });
                k += 1;
            }
            assert(bundles@.map_values(|b: Bundle| b@) =~= texts(selection.bundles@).map_values(
                |b: Seq<char>| BundleView { name: b },
            ));
            let package = Package { name: selection.package.clone(), bundles };
            let mut packages: Vec<Package> = Vec::new();
            packages.push(package);
            let catalog = Catalog { packages };
            assert(catalog@.packages =~= selection_block(selection@).packages);
            let ghost before = operators@;
            operators.push(catalog);
            assert(operators@.map_values(|c: Catalog| c@) =~= before.map_values(|c: Catalog| c@).push(
                selection_block(selection@),
            ));
        }
        i += 1;
    }
    IscV3Alpha1 { api_version: api_version.to_owned(), operators }
}

/// Writes the document that lists the selections.
pub fn emit(api_version: &str, selections: &Vec<Selection>) -> (r: String)
    ensures
        r@ == yaml_text(manifest_of(api_version@, selections@.map_values(|s: Selection| s@))),
{
    manifest_for(api_version, selections).to_yaml()
}

} // verus!
