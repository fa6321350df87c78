//! Decoding of manifest and lock text into the library's data model.
//!
//! The text is parsed by the `toml` crate behind the trusted wrappers of
//! `toml_read`; everything here that inspects the parsed values — which
//! sections exist, which shapes are accepted, where decoding fails — is
//! verified code, proved exact against the spec functions below. A shape
//! violation anywhere makes the whole document undecodable, as decoding
//! against a fixed schema would. `manifest_of` and `lock_of` state, as
//! functions of the text alone, what each decoder returns.

use vstd::prelude::*;
use crate::data::{CLockFile, CTomlFile, DepView, Dependency, DependencyDetails, LockEntryView,
    LockPackage, ManifestView, Package, TargetSection, TargetView};
use crate::toml_read::{ValView, de_error_text, seq_lookup, table_entries, table_get,
    table_view, toml_parse_table, toml_table_of, value_as_array, value_as_str, value_as_table,
    value_view};

verus! {

// ---------------------------------------------------------------------------
// The decoded shape, as a function of the parsed value
// ---------------------------------------------------------------------------

/// What a dependency declaration's value decodes to; `None` is a violation.
pub open spec fn spec_dep(v: ValView) -> Option<DepView> {
    match v {
        ValView::Str(s) => Some(DepView::Simple(s)),
        ValView::Table(t) => match seq_lookup(t, "version"@) {
            None => Some(DepView::Detailed(None)),
            Some(ValView::Str(s)) => Some(DepView::Detailed(Some(s))),
            Some(_) => None,
        },
        _ => None,
    }
}

/// Every entry of the table is a well-shaped declaration.
pub open spec fn dep_entries_ok(t: Seq<(Seq<char>, ValView)>) -> bool {
    forall|i: int| 0 <= i < t.len() ==> spec_dep((#[trigger] t[i]).1) is Some
}

/// The declarations of a well-shaped table, in entry order.
pub open spec fn dep_entries(t: Seq<(Seq<char>, ValView)>) -> Seq<(Seq<char>, DepView)> {
    Seq::new(t.len(), |i: int| (t[i].0, spec_dep(t[i].1)->0))
}

/// What a dependency-table value decodes to; `None` is a violation.
pub open spec fn spec_dep_table(v: ValView) -> Option<Seq<(Seq<char>, DepView)>> {
    match v {
        ValView::Table(t) => if dep_entries_ok(t) {
            Some(dep_entries(t))
        } else {
            None
        },
        _ => None,
    }
}

/// What an optional dependency-table section decodes to: absent is valid,
/// present it must be a well-shaped table. Outer `None` is a violation.
pub open spec fn spec_opt_table(o: Option<ValView>) -> Option<Option<Seq<(Seq<char>, DepView)>>> {
    match o {
        None => Some(None),
        Some(v) => match spec_dep_table(v) {
            None => None,
            Some(t) => Some(Some(t)),
        },
    }
}

/// What a package-section value decodes to: a table with a string name.
pub open spec fn spec_package(v: ValView) -> Option<Seq<char>> {
    match v {
        ValView::Table(t) => match seq_lookup(t, "name"@) {
            Some(ValView::Str(s)) => Some(s),
            _ => None,
        },
        _ => None,
    }
}

/// What the optional package section decodes to; outer `None` is a violation.
pub open spec fn spec_opt_package(o: Option<ValView>) -> Option<Option<Seq<char>>> {
    match o {
        None => Some(None),
        Some(v) => match spec_package(v) {
            None => None,
            Some(n) => Some(Some(n)),
        },
    }
}

/// What one target-conditional section's value decodes to.
pub open spec fn spec_target_section(v: ValView) -> Option<TargetView> {
    match v {
        ValView::Table(t) => match (
            spec_opt_table(seq_lookup(t, "dependencies"@)),
            spec_opt_table(seq_lookup(t, "dev-dependencies"@)),
        ) {
            (Some(d), Some(dd)) => Some(TargetView { dependencies: d, dev_dependencies: dd }),
            _ => None,
        },
        _ => None,
    }
}

/// Every entry of the target table is a well-shaped section.
pub open spec fn sections_ok(t: Seq<(Seq<char>, ValView)>) -> bool {
    forall|i: int| 0 <= i < t.len() ==> spec_target_section((#[trigger] t[i]).1) is Some
}

/// The sections of a well-shaped target table, in entry order.
pub open spec fn sections_view(t: Seq<(Seq<char>, ValView)>) -> Seq<TargetView> {
    Seq::new(t.len(), |i: int| spec_target_section(t[i].1)->0)
}

/// What the optional target section decodes to; outer `None` is a violation.
pub open spec fn spec_targets(o: Option<ValView>) -> Option<Option<Seq<TargetView>>> {
    match o {
        None => Some(None),
        Some(v) => match v {
            ValView::Table(t) => if sections_ok(t) {
                Some(Some(sections_view(t)))
            } else {
                None
            },
            _ => None,
        },
    }
}

/// What a top-level table decodes to as a manifest; `None` is a violation.
pub open spec fn spec_manifest(tv: Seq<(Seq<char>, ValView)>) -> Option<ManifestView> {
    match (
        spec_opt_package(seq_lookup(tv, "package"@)),
        spec_opt_table(seq_lookup(tv, "dependencies"@)),
        spec_opt_table(seq_lookup(tv, "dev-dependencies"@)),
        spec_targets(seq_lookup(tv, "target"@)),
    ) {
        (Some(p), Some(d), Some(dd), Some(ts)) => Some(
            ManifestView { package_name: p, dependencies: d, dev_dependencies: dd, targets: ts },
        ),
        _ => None,
    }
}

/// What manifest text decodes to: `None` on a parse error or any violation.
pub open spec fn manifest_of(s: Seq<char>) -> Option<ManifestView> {
    match toml_table_of(s) {
        Some(tv) => spec_manifest(tv),
        None => None,
    }
}

/// What one lock entry's value decodes to: string name and version.
pub open spec fn spec_lock_entry(v: ValView) -> Option<LockEntryView> {
    match v {
        ValView::Table(t) => match (seq_lookup(t, "name"@), seq_lookup(t, "version"@)) {
            (Some(ValView::Str(n)), Some(ValView::Str(ver))) => Some(
                LockEntryView { name: n, version: ver },
            ),
            _ => None,
        },
        _ => None,
    }
}

/// Every element of the package array is a well-shaped lock entry.
pub open spec fn lock_entries_ok(a: Seq<ValView>) -> bool {
    forall|i: int| 0 <= i < a.len() ==> spec_lock_entry(#[trigger] a[i]) is Some
}

/// The entries of a well-shaped package array, in order.
pub open spec fn lock_entries_view(a: Seq<ValView>) -> Seq<LockEntryView> {
    Seq::new(a.len(), |i: int| spec_lock_entry(a[i])->0)
}

/// What a top-level table decodes to as a lock file.
pub open spec fn spec_lock(tv: Seq<(Seq<char>, ValView)>) -> Option<Seq<LockEntryView>> {
    match seq_lookup(tv, "package"@) {
        Some(ValView::Array(a)) => if lock_entries_ok(a) {
            Some(lock_entries_view(a))
        } else {
            None
        },
        _ => None,
    }
}

/// What lock text decodes to: `None` on a parse error or any violation.
pub open spec fn lock_of(s: Seq<char>) -> Option<Seq<LockEntryView>> {
    match toml_table_of(s) {
        Some(tv) => spec_lock(tv),
        None => None,
    }
}

// ---------------------------------------------------------------------------
// The decoders
// ---------------------------------------------------------------------------

/// One dependency declaration: a string is the bare form, a table the
/// detailed form, whose version field, when present, must be a string.
fn decode_dependency(v: &toml::Value) -> (r: Option<Dependency>)
    ensures
        r.deep_view() == spec_dep(value_view(*v)),
{
    match value_as_str(v) {
        Some(s) => Some(Dependency::Simple(s)),
        None => match value_as_table(v) {
            Some(t) => match table_get(t, "version") {
                None => Some(Dependency::Detailed(DependencyDetails { version: None })),
                Some(vv) => match value_as_str(vv) {
                    Some(s) => Some(Dependency::Detailed(DependencyDetails { version: Some(s) })),
                    None => None,
                },
            },
            None => None,
        },
    }
}

/// A dependency table: every entry must be a well-shaped declaration.
#[verifier::loop_isolation(false)]
fn decode_dep_table(v: &toml::Value) -> (r: Option<Vec<(String, Dependency)>>)
    ensures
        r.deep_view() == spec_dep_table(value_view(*v)),
{
    match value_as_table(v) {
        None => None,
        Some(t) => {
            let ghost tw = table_view(*t);
            let entries = table_entries(t);
            let n = entries.len();
            let mut out: Vec<(String, Dependency)> = Vec::new();
            let mut idx: usize = 0;
            while idx < n
                invariant
                    idx <= n,
                    n == entries@.len(),
                    forall|i: int| 0 <= i < idx ==> spec_dep((#[trigger] tw[i]).1) is Some,
                    out.deep_view() =~= dep_entries(tw).take(idx as int),
                decreases n - idx,
            {
                let name = entries[idx].0.clone();
                let ghost pre = out.deep_view();
                match decode_dependency(&entries[idx].1) {
                    None => {
                        proof {
                            assert(spec_dep(tw[idx as int].1) is None);
                            assert(!dep_entries_ok(tw));
                        }
                        return None;
                    },
                    Some(d) => {
                        out.push((name, d));
                        proof {
                            assert(out.deep_view() =~= pre.push((name@, d.deep_view())));
                            assert(dep_entries(tw).take(idx as int + 1) =~= dep_entries(tw).take(
                                idx as int,
                            ).push(dep_entries(tw)[idx as int]));
                            assert(out.deep_view() =~= dep_entries(tw).take(idx as int + 1));
                        }
                    },
                }
                idx = idx + 1;
            }
            proof {
                assert(dep_entries_ok(tw));
                assert(out.deep_view() =~= dep_entries(tw));
            }
            Some(out)
        },
    }
}

/// The package section: when present it must be a table with a string name.
fn decode_package(v: &toml::Value) -> (r: Option<Package>)
    ensures
        match r {
            Some(p) => spec_package(value_view(*v)) == Some(p.name@),
            None => spec_package(value_view(*v)) is None,
        },
{
    match value_as_table(v) {
        None => None,
        Some(t) => match table_get(t, "name") {
            None => None,
            Some(nv) => match value_as_str(nv) {
                None => None,
                Some(s) => Some(Package { name: s }),
            },
        },
    }
}

/// One target-conditional section: a table with optional dependency tables.
fn decode_target_section(v: &toml::Value) -> (r: Option<TargetSection>)
    ensures
        r.deep_view() == spec_target_section(value_view(*v)),
{
    match value_as_table(v) {
        None => None,
        Some(t) => {
            let dependencies = match table_get(t, "dependencies") {
                None => None,
                Some(dv) => match decode_dep_table(dv) {
                    None => {
                        return None;
                    },
                    Some(tb) => Some(tb),
                },
            };
            let dev_dependencies = match table_get(t, "dev-dependencies") {
                None => None,
                Some(dv) => match decode_dep_table(dv) {
                    None => {
                        return None;
                    },
                    Some(tb) => Some(tb),
                },
            };
            Some(TargetSection { dependencies, dev_dependencies })
        },
    }
}

/// Decodes manifest text into a manifest document: exactly `manifest_of` of
/// the text. `Err` carries the decode diagnostic — the parser's own message,
/// or which section broke the schema.
#[verifier::loop_isolation(false)]
pub fn decode_manifest(contents: &str) -> (r: Result<CTomlFile, String>)
    ensures
        r is Ok <==> manifest_of(contents@) is Some,
        r matches Ok(doc) ==> Some(doc.deep_view()) == manifest_of(contents@),
{
    let parsed = toml_parse_table(contents);
    match parsed {
        Err(e) => Err(de_error_text(&e)),
        Ok(t) => {
            let ghost tv = table_view(t);
            let package = match table_get(&t, "package") {
                None => None,
                Some(pv) => match decode_package(pv) {
                    None => {
                        return Err("invalid package section".to_owned());
                    },
                    Some(p) => Some(p),
                },
            };
            let dependencies = match table_get(&t, "dependencies") {
                None => None,
                Some(dv) => match decode_dep_table(dv) {
                    None => {
                        return Err("invalid dependencies section".to_owned());
                    },
                    Some(tb) => Some(tb),
                },
            };
            let dev_dependencies = match table_get(&t, "dev-dependencies") {
                None => None,
                Some(dv) => match decode_dep_table(dv) {
                    None => {
                        return Err("invalid dev-dependencies section".to_owned());
                    },
                    Some(tb) => Some(tb),
                },
            };
            let target = match table_get(&t, "target") {
                None => None,
                Some(tg) => match value_as_table(tg) {
                    None => {
                        return Err("invalid target section".to_owned());
                    },
                    Some(tt) => {
                        let ghost sw = table_view(*tt);
                        let sections_raw = table_entries(tt);
                        let n = sections_raw.len();
                        let mut sections: Vec<TargetSection> = Vec::new();
                        let mut idx: usize = 0;
                        while idx < n
                            invariant
                                idx <= n,
                                n == sections_raw@.len(),
                                forall|i: int|
                                    0 <= i < idx ==> spec_target_section(
                                        (#[trigger] sw[i]).1,
                                    ) is Some,
                                sections.deep_view() =~= sections_view(sw).take(idx as int),
                            decreases n - idx,
                        {
                            let ghost pre = sections.deep_view();
                            match decode_target_section(&sections_raw[idx].1) {
                                None => {
                                    proof {
                                        assert(spec_target_section(sw[idx as int].1) is None);
                                        assert(!sections_ok(sw));
                                    }
                                    return Err("invalid target section".to_owned());
                                },
                                Some(s) => {
                                    sections.push(s);
                                    proof {
                                        assert(sections.deep_view() =~= pre.push(s.deep_view()));
                                        assert(sections_view(sw).take(idx as int + 1)
                                            =~= sections_view(sw).take(idx as int).push(
                                            sections_view(sw)[idx as int],
                                        ));
                                        assert(sections.deep_view() =~= sections_view(sw).take(
                                            idx as int + 1,
                                        ));
                                    }
                                },
                            }
                            idx = idx + 1;
                        }
                        proof {
                            assert(sections_ok(sw));
                            assert(sections.deep_view() =~= sections_view(sw));
                        }
                        Some(sections)
                    },
                },
            };
            let doc = CTomlFile { package, dependencies, dev_dependencies, target };
            proof {
                assert(Some(doc.deep_view()) == spec_manifest(tv));
            }
            Ok(doc)
        },
    }
}

/// One lock entry: a table with string name and version.
fn decode_lock_entry(v: &toml::Value) -> (r: Option<LockPackage>)
    ensures
        r.deep_view() == spec_lock_entry(value_view(*v)),
{
    match value_as_table(v) {
        None => None,
        Some(t) => {
            let name = match table_get(t, "name") {
                None => {
                    return None;
                },
                Some(nv) => match value_as_str(nv) {
                    None => {
                        return None;
                    },
                    Some(s) => s,
                },
            };
            let version = match table_get(t, "version") {
                None => {
                    return None;
                },
                Some(vv) => match value_as_str(vv) {
                    None => {
                        return None;
                    },
                    Some(s) => s,
                },
            };
            Some(LockPackage { name, version })
        },
    }
}

/// Decodes lock text into its list of resolved packages: exactly `lock_of`
/// of the text. Lock files are best-effort corroboration: any violation
/// yields `None`, silently.
#[verifier::loop_isolation(false)]
pub fn decode_lock(contents: &str) -> (r: Option<CLockFile>)
    ensures
        match r {
            Some(l) => lock_of(contents@) == Some(l.package.deep_view()),
            None => lock_of(contents@) is None,
        },
{
    match toml_parse_table(contents) {
        Err(_) => None,
        Ok(t) => match table_get(&t, "package") {
            None => None,
            Some(pv) => match value_as_array(pv) {
                None => None,
                Some(arr) => {
                    let ghost aw = Seq::new(arr@.len(), |i: int| value_view(arr@[i]));
                    let n = arr.len();
                    let mut out: Vec<LockPackage> = Vec::new();
                    let mut idx: usize = 0;
                    while idx < n
                        invariant
                            idx <= n,
                            n == arr@.len(),
                            forall|i: int| 0 <= i < idx ==> spec_lock_entry(#[trigger] aw[i]) is Some,
                            out.deep_view() =~= lock_entries_view(aw).take(idx as int),
                        decreases n - idx,
                    {
                        let ghost pre = out.deep_view();
                        match decode_lock_entry(&arr[idx]) {
                            None => {
                                proof {
                                    assert(spec_lock_entry(aw[idx as int]) is None);
                                    assert(!lock_entries_ok(aw));
                                }
                                return None;
                            },
                            Some(p) => {
                                out.push(p);
                                proof {
                                    assert(out.deep_view() =~= pre.push(p.deep_view()));
                                    assert(lock_entries_view(aw).take(idx as int + 1)
                                        =~= lock_entries_view(aw).take(idx as int).push(
                                        lock_entries_view(aw)[idx as int],
                                    ));
                                    assert(out.deep_view() =~= lock_entries_view(aw).take(
                                        idx as int + 1,
                                    ));
                                }
                            },
                        }
                        idx = idx + 1;
                    }
                    proof {
                        assert(lock_entries_ok(aw));
                        assert(out.deep_view() =~= lock_entries_view(aw));
                    }
                    Some(CLockFile { package: out })
                },
            },
        },
    }
}

} // verus!
