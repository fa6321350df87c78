//! Data model of the scan: dependency declarations as a manifest states them,
//! resolved lock entries, report rows, and the spec-level views and functions
//! that the contracts are written over.

use vstd::prelude::*;

verus! {

/// One row of the final report: the owning package, the version that was
/// declared or resolved for the target dependency, and the file it came from.
#[derive(Debug, PartialEq, Eq)]
pub struct FoundDependency {
    pub package_name: String,
    pub dep_version: String,
    pub path: String,
}

/// The detailed form of a dependency declaration; the version may be absent
/// (path or git dependencies, for instance).
pub struct DependencyDetails {
    pub version: Option<String>,
}

/// A dependency declaration: either a bare version string or a detailed table.
pub enum Dependency {
    Simple(String),
    Detailed(DependencyDetails),
}

/// One target-conditional section of a manifest, with its own tables.
pub struct TargetSection {
    pub dependencies: Option<Vec<(String, Dependency)>>,
    pub dev_dependencies: Option<Vec<(String, Dependency)>>,
}

/// Package metadata of a manifest; when the section is present a name is
/// required.
pub struct Package {
    pub name: String,
}

/// The decoded shape of a manifest file. Every section is optional: a
/// workspace root may have none of them.
pub struct CTomlFile {
    pub package: Option<Package>,
    pub dependencies: Option<Vec<(String, Dependency)>>,
    pub dev_dependencies: Option<Vec<(String, Dependency)>>,
    pub target: Option<Vec<TargetSection>>,
}

/// One resolved entry of a lock file: always a name and a concrete version.
pub struct LockPackage {
    pub name: String,
    pub version: String,
}

/// The decoded shape of a lock file: its list of resolved packages.
pub struct CLockFile {
    pub package: Vec<LockPackage>,
}

/// A discovered file: its path and the outcome of reading it. `Err` carries
/// the text of the read error for a listed file that could not be read.
pub struct FileEntry {
    pub path: String,
    pub contents: Result<String, String>,
}

/// The manifest/lock pair discovered for one package directory.
pub struct CargoFiles {
    pub ctoml: Option<FileEntry>,
    pub clock: Option<FileEntry>,
}

/// The error that aborts a scan: a listed file could not be read.
#[derive(Debug, PartialEq, Eq)]
pub enum MoleError {
    Io(String),
}

// ---------------------------------------------------------------------------
// Spec-level views
// ---------------------------------------------------------------------------

/// Spec view of a report row.
#[verifier::ext_equal]
pub struct RowView {
    pub package_name: Seq<char>,
    pub dep_version: Seq<char>,
    pub path: Seq<char>,
}

/// Spec view of a dependency declaration.
#[verifier::ext_equal]
pub enum DepView {
    Simple(Seq<char>),
    Detailed(Option<Seq<char>>),
}

/// Spec view of a target-conditional section.
#[verifier::ext_equal]
pub struct TargetView {
    pub dependencies: Option<Seq<(Seq<char>, DepView)>>,
    pub dev_dependencies: Option<Seq<(Seq<char>, DepView)>>,
}

/// Spec view of a decoded manifest.
#[verifier::ext_equal]
pub struct ManifestView {
    pub package_name: Option<Seq<char>>,
    pub dependencies: Option<Seq<(Seq<char>, DepView)>>,
    pub dev_dependencies: Option<Seq<(Seq<char>, DepView)>>,
    pub targets: Option<Seq<TargetView>>,
}

/// Spec view of a lock entry.
#[verifier::ext_equal]
pub struct LockEntryView {
    pub name: Seq<char>,
    pub version: Seq<char>,
}

/// Spec view of a discovered file.
#[verifier::ext_equal]
pub struct FileView {
    pub path: Seq<char>,
    pub contents: Result<Seq<char>, Seq<char>>,
}

/// Spec view of a manifest/lock pair.
#[verifier::ext_equal]
pub struct GroupView {
    pub ctoml: Option<FileView>,
    pub clock: Option<FileView>,
}

impl DeepView for FoundDependency {
    type V = RowView;

    open spec fn deep_view(&self) -> RowView {
        RowView {
            package_name: self.package_name@,
            dep_version: self.dep_version@,
            path: self.path@,
        }
    }
}

impl DeepView for Dependency {
    type V = DepView;

    open spec fn deep_view(&self) -> DepView {
        match self {
            Dependency::Simple(v) => DepView::Simple(v@),
            Dependency::Detailed(d) => DepView::Detailed(
                match d.version {
                    Some(ref v) => Some(v@),
                    None => None,
                },
            ),
        }
    }
}

impl DeepView for TargetSection {
    type V = TargetView;

    open spec fn deep_view(&self) -> TargetView {
        TargetView {
            dependencies: match self.dependencies {
                Some(ref t) => Some(t.deep_view()),
                None => None,
            },
            dev_dependencies: match self.dev_dependencies {
                Some(ref t) => Some(t.deep_view()),
                None => None,
            },
        }
    }
}

impl DeepView for CTomlFile {
    type V = ManifestView;

    open spec fn deep_view(&self) -> ManifestView {
        ManifestView {
            package_name: match self.package {
                Some(ref p) => Some(p.name@),
                None => None,
            },
            dependencies: match self.dependencies {
                Some(ref t) => Some(t.deep_view()),
                None => None,
            },
            dev_dependencies: match self.dev_dependencies {
                Some(ref t) => Some(t.deep_view()),
                None => None,
            },
            targets: match self.target {
                Some(ref t) => Some(t.deep_view()),
                None => None,
            },
        }
    }
}

impl DeepView for LockPackage {
    type V = LockEntryView;

    open spec fn deep_view(&self) -> LockEntryView {
        LockEntryView { name: self.name@, version: self.version@ }
    }
}

impl DeepView for FileEntry {
    type V = FileView;

    open spec fn deep_view(&self) -> FileView {
        FileView {
            path: self.path@,
            contents: match self.contents {
                Ok(ref s) => Ok(s@),
                Err(ref e) => Err(e@),
            },
        }
    }
}

impl DeepView for CargoFiles {
    type V = GroupView;

    open spec fn deep_view(&self) -> GroupView {
        GroupView {
            ctoml: match self.ctoml {
                Some(ref f) => Some(f.deep_view()),
                None => None,
            },
            clock: match self.clock {
                Some(ref f) => Some(f.deep_view()),
                None => None,
            },
        }
    }
}

// ---------------------------------------------------------------------------
// Spec functions: what the parsers compute
// ---------------------------------------------------------------------------

/// The sentinel that stands for "value unknown or absent".
pub open spec fn dash() -> Seq<char> {
    seq!['-']
}

/// The version a matched declaration reports: the literal for the bare form,
/// the version field for the detailed form, the sentinel when that is absent.
pub open spec fn dep_version_view(d: DepView) -> Seq<char> {
    match d {
        DepView::Simple(v) => v,
        DepView::Detailed(ov) => match ov {
            Some(v) => v,
            None => dash(),
        },
    }
}

/// The version reported by the first entry of the table whose key equals the
/// target name, if any entry matches.
pub open spec fn table_match(t: Seq<(Seq<char>, DepView)>, target: Seq<char>) -> Option<Seq<char>>
    decreases t.len(),
{
    if t.len() == 0 {
        None
    } else if t[0].0 == target {
        Some(dep_version_view(t[0].1))
    } else {
        table_match(t.skip(1), target)
    }
}

/// The row an optional table contributes: at most one, for the first match.
pub open spec fn table_row(
    t: Option<Seq<(Seq<char>, DepView)>>,
    target: Seq<char>,
    name: Seq<char>,
    path: Seq<char>,
) -> Option<RowView> {
    match t {
        None => None,
        Some(t) => match table_match(t, target) {
            None => None,
            Some(v) => Some(RowView { package_name: name, dep_version: v, path: path }),
        },
    }
}

/// The same contribution as a sequence of zero or one rows.
pub open spec fn table_rows(
    t: Option<Seq<(Seq<char>, DepView)>>,
    target: Seq<char>,
    name: Seq<char>,
    path: Seq<char>,
) -> Seq<RowView> {
    match table_row(t, target, name, path) {
        None => seq![],
        Some(r) => seq![r],
    }
}

/// The tables of the target-conditional sections, in order: each section
/// contributes its dependency table then its dev-dependency table.
pub open spec fn target_tables(ts: Seq<TargetView>) -> Seq<Option<Seq<(Seq<char>, DepView)>>>
    decreases ts.len(),
{
    if ts.len() == 0 {
        seq![]
    } else {
        seq![ts[0].dependencies, ts[0].dev_dependencies] + target_tables(ts.skip(1))
    }
}

/// Every table of a manifest, in the order it is scanned: the flat dependency
/// table, the flat dev-dependency table, then the target-conditional tables.
pub open spec fn doc_tables(m: ManifestView) -> Seq<Option<Seq<(Seq<char>, DepView)>>> {
    seq![m.dependencies, m.dev_dependencies] + target_tables(
        match m.targets {
            Some(ts) => ts,
            None => seq![],
        },
    )
}

/// The rows a list of tables contributes: one per table with a match.
pub open spec fn tables_rows(
    tabs: Seq<Option<Seq<(Seq<char>, DepView)>>>,
    target: Seq<char>,
    name: Seq<char>,
    path: Seq<char>,
) -> Seq<RowView>
    decreases tabs.len(),
{
    if tabs.len() == 0 {
        seq![]
    } else {
        table_rows(tabs[0], target, name, path) + tables_rows(tabs.skip(1), target, name, path)
    }
}

/// The display name of a manifest: its declared package name, or the sentinel.
pub open spec fn display_name(m: ManifestView) -> Seq<char> {
    match m.package_name {
        Some(n) => n,
        None => dash(),
    }
}

/// What the Manifest Parser reports for a decoded manifest: one row per table
/// that contains the target name, all under the manifest's display name.
pub open spec fn manifest_rows(m: ManifestView, target: Seq<char>, path: Seq<char>) -> Seq<RowView> {
    tables_rows(doc_tables(m), target, display_name(m), path)
}

/// What the Lock Parser reports: one row per lock entry named like the target
/// dependency, each under the owning package name that was passed in.
pub open spec fn lock_rows(
    entries: Seq<LockEntryView>,
    target: Seq<char>,
    path: Seq<char>,
    owner: Seq<char>,
) -> Seq<RowView>
    decreases entries.len(),
{
    if entries.len() == 0 {
        seq![]
    } else {
        (if entries[0].name == target {
            seq![
                RowView {
                    package_name: owner,
                    dep_version: entries[0].version,
                    path: path,
                },
            ]
        } else {
            seq![]
        }) + lock_rows(entries.skip(1), target, path, owner)
    }
}

/// A group's files can all be read: the manifest, and the lock when the group
/// has both. A group without a manifest never has a file read.
pub open spec fn group_readable(g: GroupView) -> bool {
    match g.ctoml {
        None => true,
        Some(m) => m.contents is Ok && match g.clock {
            None => true,
            Some(l) => l.contents is Ok,
        },
    }
}

/// The read error a group surfaces, if any: the manifest's first, else the
/// lock's when the group has a manifest.
pub open spec fn group_error(g: GroupView) -> Option<Seq<char>> {
    match g.ctoml {
        None => None,
        Some(m) => match m.contents {
            Err(e) => Some(e),
            Ok(_) => match g.clock {
                None => None,
                Some(l) => match l.contents {
                    Err(e) => Some(e),
                    Ok(_) => None,
                },
            },
        },
    }
}

/// The first read error over the groups, in order.
pub open spec fn first_error(gs: Seq<GroupView>) -> Option<Seq<char>>
    decreases gs.len(),
{
    if gs.len() == 0 {
        None
    } else {
        match group_error(gs[0]) {
            Some(e) => Some(e),
            None => first_error(gs.skip(1)),
        }
    }
}

/// The sentinel as an executable string.
pub(crate) fn dash_string() -> (r: String)
    ensures
        r@ == dash(),
{
    let r = "-".to_owned();
    proof {
        reveal_strlit("-");
        assert(r@ =~= dash());
    }
    r
}

/// Scanning a concatenation of table lists scans one then the other.
pub proof fn lemma_tables_rows_append(
    a: Seq<Option<Seq<(Seq<char>, DepView)>>>,
    b: Seq<Option<Seq<(Seq<char>, DepView)>>>,
    target: Seq<char>,
    name: Seq<char>,
    path: Seq<char>,
)
    ensures
        tables_rows(a + b, target, name, path) == tables_rows(a, target, name, path) + tables_rows(
            b,
            target,
            name,
            path,
        ),
    decreases a.len(),
{
    if a.len() == 0 {
        assert(a + b =~= b);
        assert(tables_rows(a, target, name, path) + tables_rows(b, target, name, path)
            =~= tables_rows(b, target, name, path));
    } else {
        assert((a + b)[0] == a[0]);
        assert((a + b).skip(1) =~= a.skip(1) + b);
        lemma_tables_rows_append(a.skip(1), b, target, name, path);
        assert(tables_rows(a + b, target, name, path) =~= tables_rows(a, target, name, path)
            + tables_rows(b, target, name, path));
    }
}

/// Appending one more table appends its contribution.
pub proof fn lemma_tables_rows_snoc(
    tabs: Seq<Option<Seq<(Seq<char>, DepView)>>>,
    t: Option<Seq<(Seq<char>, DepView)>>,
    target: Seq<char>,
    name: Seq<char>,
    path: Seq<char>,
)
    ensures
        tables_rows(tabs.push(t), target, name, path) == tables_rows(tabs, target, name, path)
            + table_rows(t, target, name, path),
{
    assert(tabs.push(t) =~= tabs + seq![t]);
    lemma_tables_rows_append(tabs, seq![t], target, name, path);
    assert(seq![t][0] == t);
    assert(seq![t].skip(1) =~= Seq::<Option<Seq<(Seq<char>, DepView)>>>::empty());
    assert(tables_rows(Seq::<Option<Seq<(Seq<char>, DepView)>>>::empty(), target, name, path)
        == Seq::<RowView>::empty());
    assert(tables_rows(seq![t], target, name, path) =~= table_rows(t, target, name, path));
}

/// Appending a target section appends its two tables.
pub proof fn lemma_target_tables_snoc(ts: Seq<TargetView>, x: TargetView)
    ensures
        target_tables(ts.push(x)) == target_tables(ts) + seq![x.dependencies, x.dev_dependencies],
    decreases ts.len(),
{
    if ts.len() == 0 {
        assert(ts.push(x)[0] == x);
        assert(ts.push(x).skip(1) =~= Seq::<TargetView>::empty());
        assert(target_tables(Seq::<TargetView>::empty()) == Seq::<Option<
            Seq<(Seq<char>, DepView)>,
        >>::empty());
        assert(target_tables(ts.push(x)) =~= target_tables(ts) + seq![
            x.dependencies,
            x.dev_dependencies,
        ]);
    } else {
        assert(ts.push(x)[0] == ts[0]);
        assert(ts.push(x).skip(1) =~= ts.skip(1).push(x));
        lemma_target_tables_snoc(ts.skip(1), x);
        assert(target_tables(ts.push(x)) =~= target_tables(ts) + seq![
            x.dependencies,
            x.dev_dependencies,
        ]);
    }
}

/// Appending a lock entry appends its contribution.
pub proof fn lemma_lock_rows_snoc(
    entries: Seq<LockEntryView>,
    e: LockEntryView,
    target: Seq<char>,
    path: Seq<char>,
    owner: Seq<char>,
)
    ensures
        lock_rows(entries.push(e), target, path, owner) == lock_rows(entries, target, path, owner)
            + (if e.name == target {
            seq![RowView { package_name: owner, dep_version: e.version, path: path }]
        } else {
            seq![]
        }),
    decreases entries.len(),
{
    if entries.len() == 0 {
        assert(entries.push(e)[0] == e);
        assert(entries.push(e).skip(1) =~= Seq::<LockEntryView>::empty());
        assert(lock_rows(Seq::<LockEntryView>::empty(), target, path, owner)
            == Seq::<RowView>::empty());
        assert(lock_rows(entries.push(e), target, path, owner) =~= lock_rows(
            entries,
            target,
            path,
            owner,
        ) + (if e.name == target {
            seq![RowView { package_name: owner, dep_version: e.version, path: path }]
        } else {
            seq![]
        }));
    } else {
        assert(entries.push(e)[0] == entries[0]);
        assert(entries.push(e).skip(1) =~= entries.skip(1).push(e));
        lemma_lock_rows_snoc(entries.skip(1), e, target, path, owner);
        assert(lock_rows(entries.push(e), target, path, owner) =~= lock_rows(
            entries,
            target,
            path,
            owner,
        ) + (if e.name == target {
            seq![RowView { package_name: owner, dep_version: e.version, path: path }]
        } else {
            seq![]
        }));
    }
}

/// Every row a table list contributes carries the given owner name and path.
pub proof fn lemma_tables_rows_fields(
    tabs: Seq<Option<Seq<(Seq<char>, DepView)>>>,
    target: Seq<char>,
    name: Seq<char>,
    path: Seq<char>,
)
    ensures
        forall|k: int|
            0 <= k < tables_rows(tabs, target, name, path).len() ==> (#[trigger] tables_rows(
                tabs,
                target,
                name,
                path,
            )[k]).package_name == name && tables_rows(tabs, target, name, path)[k].path == path,
    decreases tabs.len(),
{
    if tabs.len() > 0 {
        lemma_tables_rows_fields(tabs.skip(1), target, name, path);
        let head = table_rows(tabs[0], target, name, path);
        let rest = tables_rows(tabs.skip(1), target, name, path);
        assert(tables_rows(tabs, target, name, path) == head + rest);
        assert forall|k: int| 0 <= k < (head + rest).len() implies ((head + rest)[k]).package_name
            == name && (head + rest)[k].path == path by {
            if k < head.len() {
                assert((head + rest)[k] == head[k]);
            } else {
                assert((head + rest)[k] == rest[k - head.len()]);
            }
        }
    }
}

/// Every row the lock parser contributes carries the given owner name and path.
pub proof fn lemma_lock_rows_fields(
    entries: Seq<LockEntryView>,
    target: Seq<char>,
    path: Seq<char>,
    owner: Seq<char>,
)
    ensures
        forall|k: int|
            0 <= k < lock_rows(entries, target, path, owner).len() ==> (#[trigger] lock_rows(
                entries,
                target,
                path,
                owner,
            )[k]).package_name == owner && lock_rows(entries, target, path, owner)[k].path == path,
    decreases entries.len(),
{
    if entries.len() > 0 {
        lemma_lock_rows_fields(entries.skip(1), target, path, owner);
        let head = if entries[0].name == target {
            seq![
                RowView {
                    package_name: owner,
                    dep_version: entries[0].version,
                    path: path,
                },
            ]
        } else {
            seq![]
        };
        let rest = lock_rows(entries.skip(1), target, path, owner);
        assert(lock_rows(entries, target, path, owner) == head + rest);
        assert forall|k: int| 0 <= k < (head + rest).len() implies ((head + rest)[k]).package_name
            == owner && (head + rest)[k].path == path by {
            if k < head.len() {
                assert((head + rest)[k] == head[k]);
            } else {
                assert((head + rest)[k] == rest[k - head.len()]);
            }
        }
    }
}

/// A clean prefix does not change which read error comes first.
pub proof fn lemma_first_error_skip(gs: Seq<GroupView>, i: int)
    requires
        0 <= i <= gs.len(),
        forall|k: int| 0 <= k < i ==> group_error(#[trigger] gs[k]) is None,
    ensures
        first_error(gs) == first_error(gs.skip(i)),
    decreases i,
{
    if i > 0 {
        assert(group_error(gs[0]) is None);
        lemma_first_error_skip(gs.skip(1), i - 1);
        assert(gs.skip(1).skip(i - 1) =~= gs.skip(i));
    } else {
        assert(gs.skip(0) =~= gs);
    }
}

/// No read error comes first exactly when every group is readable.
pub proof fn lemma_first_error_none_iff(gs: Seq<GroupView>)
    ensures
        (first_error(gs) is None) <==> (forall|k: int|
            0 <= k < gs.len() ==> group_readable(#[trigger] gs[k])),
    decreases gs.len(),
{
    if gs.len() > 0 {
        lemma_first_error_none_iff(gs.skip(1));
        assert(group_readable(gs[0]) <==> group_error(gs[0]) is None);
        assert forall|k: int| 1 <= k < gs.len() implies (group_readable(#[trigger] gs[k])
            <==> group_readable(gs.skip(1)[k - 1])) by {
            assert(gs.skip(1)[k - 1] == gs[k]);
        }
    }
}

/// No group of the index has a manifest path.
pub open spec fn no_manifests(gs: Seq<GroupView>) -> bool {
    forall|k: int| 0 <= k < gs.len() ==> (#[trigger] gs[k]).ctoml is None
}

} // verus!
