//! The parsers and the correlator: scanning decoded manifests and lock files
//! for a target dependency and merging the findings into one sorted report.

use vstd::prelude::*;
use crate::data::{CLockFile, CTomlFile, CargoFiles, DepView, Dependency, FoundDependency,
    GroupView, LockEntryView, MoleError, RowView, TargetView, dash, dash_string, dep_version_view, display_name,
    doc_tables, first_error, group_error, group_readable, lemma_first_error_none_iff,
    lemma_first_error_skip, lemma_lock_rows_fields, lemma_lock_rows_snoc,
    lemma_tables_rows_fields, lemma_tables_rows_snoc, lemma_target_tables_snoc, lock_rows,
    manifest_rows, no_manifests, table_match, table_row, tables_rows, target_tables};
use crate::decode::{decode_lock, decode_manifest, lock_of, manifest_of};
use crate::order::{rows_view, sort_rows, sort_spec, sorted_by_path};
use crate::toml_read::log_unparsable;

verus! {

/// The display name a manifest text yields: the declared package name when
/// the text decodes and declares one, else the sentinel.
pub open spec fn spec_fallback_name(text: Seq<char>) -> Seq<char> {
    match manifest_of(text) {
        Some(m) => display_name(m),
        None => dash(),
    }
}

/// What the Manifest Parser reports for given text: the decoded document's
/// rows, or nothing when the text does not decode.
pub open spec fn spec_manifest_report(text: Seq<char>, target: Seq<char>, path: Seq<char>) -> Seq<
    RowView,
> {
    match manifest_of(text) {
        Some(m) => manifest_rows(m, target, path),
        None => Seq::<RowView>::empty(),
    }
}

/// What the Lock Parser reports for given text under a given owner: the
/// decoded entries' rows, or nothing when the text does not decode.
pub open spec fn spec_lock_report(
    text: Seq<char>,
    target: Seq<char>,
    path: Seq<char>,
    owner: Seq<char>,
) -> Seq<RowView> {
    match lock_of(text) {
        Some(es) => lock_rows(es, target, path, owner),
        None => Seq::<RowView>::empty(),
    }
}

/// The owning package name a group's manifest determines: the first matched
/// row's name when the manifest matched, else the name-only extraction.
pub open spec fn spec_group_owner(text: Seq<char>, target: Seq<char>, path: Seq<char>) -> Seq<
    char,
> {
    let mrows = spec_manifest_report(text, target, path);
    if mrows.len() > 0 {
        mrows[0].package_name
    } else {
        spec_fallback_name(text)
    }
}

/// What one group contributes: its manifest's rows, then — when a readable
/// lock file is present — its lock's rows under the determined owner. A
/// group without a manifest contributes nothing. (Defined as empty for an
/// unreadable file; the correlator aborts there instead.)
pub open spec fn spec_group_rows(g: GroupView, target: Seq<char>) -> Seq<RowView> {
    match g.ctoml {
        None => Seq::<RowView>::empty(),
        Some(mf) => match mf.contents {
            Err(_) => Seq::<RowView>::empty(),
            Ok(text) => spec_manifest_report(text, target, mf.path) + (match g.clock {
                None => Seq::<RowView>::empty(),
                Some(lf) => match lf.contents {
                    Err(_) => Seq::<RowView>::empty(),
                    Ok(ltext) => spec_lock_report(
                        ltext,
                        target,
                        lf.path,
                        spec_group_owner(text, target, mf.path),
                    ),
                },
            }),
        },
    }
}

/// Every group's contribution, in group order.
pub open spec fn spec_all_rows(gs: Seq<GroupView>, target: Seq<char>) -> Seq<RowView>
    decreases gs.len(),
{
    if gs.len() == 0 {
        Seq::<RowView>::empty()
    } else {
        spec_group_rows(gs[0], target) + spec_all_rows(gs.skip(1), target)
    }
}

/// Appending one more group appends its contribution.
pub proof fn lemma_spec_all_rows_snoc(gs: Seq<GroupView>, g: GroupView, target: Seq<char>)
    ensures
        spec_all_rows(gs.push(g), target) == spec_all_rows(gs, target) + spec_group_rows(
            g,
            target,
        ),
    decreases gs.len(),
{
    if gs.len() == 0 {
        assert(gs.push(g)[0] == g);
        assert(gs.push(g).skip(1) =~= Seq::<GroupView>::empty());
        assert(spec_all_rows(Seq::<GroupView>::empty(), target) == Seq::<RowView>::empty());
        assert(spec_all_rows(gs.push(g), target) =~= spec_all_rows(gs, target) + spec_group_rows(
            g,
            target,
        ));
    } else {
        assert(gs.push(g)[0] == gs[0]);
        assert(gs.push(g).skip(1) =~= gs.skip(1).push(g));
        lemma_spec_all_rows_snoc(gs.skip(1), g, target);
        assert(spec_all_rows(gs.push(g), target) =~= spec_all_rows(gs, target) + spec_group_rows(
            g,
            target,
        ));
    }
}

/// Decides whether two strings hold the same characters.
fn str_eq(a: &str, b: &str) -> (r: bool)
    ensures
        r == (a@ == b@),
{
    let sa: String = a.to_owned();
    let sb: String = b.to_owned();
    sa == sb
}

/// Appends an optional row to the report being built.
fn push_row(res: &mut Vec<FoundDependency>, row: Option<FoundDependency>)
    ensures
        final(res).deep_view() == old(res).deep_view() + (match row.deep_view() {
            Some(r) => seq![r],
            None => Seq::<RowView>::empty(),
        }),
{
    let ghost pre = res.deep_view();
    match row {
        Some(fd) => {
            res.push(fd);
            proof {
                assert(res.deep_view() =~= pre + seq![fd.deep_view()]);
            }
        },
        None => {
            proof {
                assert(res.deep_view() =~= pre + Seq::<RowView>::empty());
            }
        },
    }
}

/// The scanner: parses the discovered files and correlates their findings.
#[derive(Default)]
pub struct FileParser;

impl FileParser {
    pub fn new() -> Self {
        FileParser
    }

    /// Scans one dependency table, if it is present, for the target name.
    /// The first entry whose key equals the target yields the one reported
    /// row of this table; its version is the declaration's.
    #[verifier::loop_isolation(false)]
    pub fn parse_dependencies(
        &self,
        dependencies: &Option<Vec<(String, Dependency)>>,
        target_dep: &str,
        path: &str,
        package_name: &str,
    ) -> (r: Option<FoundDependency>)
        ensures
            r.deep_view() == table_row(
                dependencies.deep_view(),
                target_dep@,
                package_name@,
                path@,
            ),
    {
        match dependencies {
            None => None,
            Some(deps) => {
                let ghost tv = deps.deep_view();
                proof {
                    assert(tv.skip(0) =~= tv);
                }
                let n = deps.len();
                let mut idx: usize = 0;
                while idx < n
                    invariant
                        idx <= n,
                        n == deps@.len(),
                        tv == deps.deep_view(),
                        tv.len() == n,
                        table_match(tv, target_dep@) == table_match(
                            tv.skip(idx as int),
                            target_dep@,
                        ),
                    decreases n - idx,
                {
                    proof {
                        assert(tv.skip(idx as int)[0] == tv[idx as int]);
                        assert(tv[idx as int] == deps@[idx as int].deep_view());
                    }
                    let is_match = str_eq(deps[idx].0.as_str(), target_dep);
                    if is_match {
                        let version: String = match &deps[idx].1 {
                            Dependency::Simple(v) => v.clone(),
                            Dependency::Detailed(d) => match &d.version {
                                Some(v) => v.clone(),
                                None => dash_string(),
                            },
                        };
                        let fd = FoundDependency {
                            package_name: package_name.to_owned(),
                            dep_version: version,
                            path: path.to_owned(),
                        };
                        proof {
                            assert(version@ == dep_version_view(tv[idx as int].1));
                        }
                        return Some(fd);
                    }
                    proof {
                        assert(tv.skip(idx as int).skip(1) =~= tv.skip(idx as int + 1));
                    }
                    idx = idx + 1;
                }
                proof {
                    assert(tv.skip(n as int) =~= Seq::<(Seq<char>, DepView)>::empty());
                }
                None
            },
        }
    }

    /// Scans a decoded manifest: the flat tables first, then each
    /// target-conditional section's tables, one row per table with a match,
    /// all under the manifest's display name.
    #[verifier::loop_isolation(false)]
    pub fn extract_toml(&self, toml_file: &CTomlFile, target_dep: &str, path: &str) -> (r: Vec<
        FoundDependency,
    >)
        ensures
            r.deep_view() == manifest_rows(toml_file.deep_view(), target_dep@, path@),
    {
        let ghost m = toml_file.deep_view();
        let mut res: Vec<FoundDependency> = Vec::new();
        let package_name: String = match &toml_file.package {
            Some(p) => p.name.clone(),
            None => dash_string(),
        };
        let ghost nm = package_name@;
        let ghost t2 = seq![m.dependencies, m.dev_dependencies];
        assert(nm == display_name(m));

        let flat = self.parse_dependencies(
            &toml_file.dependencies,
            target_dep,
            path,
            package_name.as_str(),
        );
        push_row(&mut res, flat);
        let dev = self.parse_dependencies(
            &toml_file.dev_dependencies,
            target_dep,
            path,
            package_name.as_str(),
        );
        push_row(&mut res, dev);
        proof {
            lemma_tables_rows_snoc(seq![m.dependencies], m.dev_dependencies, target_dep@, nm,
                path@);
            lemma_tables_rows_snoc(
                Seq::<Option<Seq<(Seq<char>, DepView)>>>::empty(),
                m.dependencies,
                target_dep@,
                nm,
                path@,
            );
            assert(Seq::<Option<Seq<(Seq<char>, DepView)>>>::empty().push(m.dependencies)
                =~= seq![m.dependencies]);
            assert(seq![m.dependencies].push(m.dev_dependencies) =~= t2);
            assert(tables_rows(Seq::<Option<Seq<(Seq<char>, DepView)>>>::empty(), target_dep@, nm,
                path@) == Seq::<RowView>::empty());
            assert(res.deep_view() =~= tables_rows(t2, target_dep@, nm, path@));
        }

        match &toml_file.target {
            None => {
                proof {
                    assert(m.targets is None);
                    assert(target_tables(Seq::<TargetView>::empty()) == Seq::<Option<
                        Seq<(Seq<char>, DepView)>,
                    >>::empty());
                    assert(doc_tables(m) =~= t2);
                }
            },
            Some(sections) => {
                let ghost ts = sections.deep_view();
                let sn = sections.len();
                let mut si: usize = 0;
                while si < sn
                    invariant
                        si <= sn,
                        sn == sections@.len(),
                        ts == sections.deep_view(),
                        ts.len() == sn,
                        t2 == seq![m.dependencies, m.dev_dependencies],
                        res.deep_view() == tables_rows(
                            t2 + target_tables(ts.take(si as int)),
                            target_dep@,
                            nm,
                            path@,
                        ),
                    decreases sn - si,
                {
                    proof {
                        assert(ts[si as int] == sections@[si as int].deep_view());
                    }
                    let s_dep = self.parse_dependencies(
                        &sections[si].dependencies,
                        target_dep,
                        path,
                        package_name.as_str(),
                    );
                    push_row(&mut res, s_dep);
                    let s_dev = self.parse_dependencies(
                        &sections[si].dev_dependencies,
                        target_dep,
                        path,
                        package_name.as_str(),
                    );
                    push_row(&mut res, s_dev);
                    proof {
                        let base = t2 + target_tables(ts.take(si as int));
                        let sec = ts[si as int];
                        lemma_tables_rows_snoc(base, sec.dependencies, target_dep@, nm, path@);
                        lemma_tables_rows_snoc(base.push(sec.dependencies), sec.dev_dependencies,
                            target_dep@, nm, path@);
                        lemma_target_tables_snoc(ts.take(si as int), sec);
                        assert(ts.take(si as int + 1) =~= ts.take(si as int).push(sec));
                        assert(t2 + target_tables(ts.take(si as int + 1)) =~= base.push(
                            sec.dependencies,
                        ).push(sec.dev_dependencies));
                        assert(res.deep_view() =~= tables_rows(
                            t2 + target_tables(ts.take(si as int + 1)),
                            target_dep@,
                            nm,
                            path@,
                        ));
                    }
                    si = si + 1;
                }
                proof {
                    assert(ts.take(sn as int) =~= ts);
                    assert(doc_tables(m) =~= t2 + target_tables(ts));
                }
            },
        }
        res
    }

    /// Parses manifest text and scans it. An undecodable manifest logs one
    /// diagnostic line and contributes no rows; whatever document the text
    /// decodes to, the result is exactly that document's rows.
    pub fn parse_toml(&self, contents: &str, target_dep: &str, path: &str) -> (r: Vec<
        FoundDependency,
    >)
        ensures
            r.deep_view() == spec_manifest_report(contents@, target_dep@, path@),
            forall|k: int|
                0 <= k < r.deep_view().len() ==> (#[trigger] r.deep_view()[k]).path == path@,
            forall|j: int, k: int|
                0 <= j < r.deep_view().len() && 0 <= k < r.deep_view().len() ==> (
                #[trigger] r.deep_view()[j]).package_name == (
                #[trigger] r.deep_view()[k]).package_name,
    {
        match decode_manifest(contents) {
            Err(e) => {
                log_unparsable(path, e.as_str());
                let r: Vec<FoundDependency> = Vec::new();
                proof {
                    assert(manifest_of(contents@) is None);
                    assert(r.deep_view() =~= Seq::<RowView>::empty());
                }
                r
            },
            Ok(doc) => {
                let r = self.extract_toml(&doc, target_dep, path);
                proof {
                    let m = doc.deep_view();
                    assert(Some(m) == manifest_of(contents@));
                    assert(r.deep_view() == manifest_rows(m, target_dep@, path@));
                    lemma_tables_rows_fields(doc_tables(m), target_dep@, display_name(m), path@);
                }
                r
            },
        }
    }

    /// Parses lock text and reports one row per entry named like the target,
    /// every row under the owning package name that was passed in.
    pub fn parse_lock(
        &self,
        contents: &str,
        dependency_name: &str,
        path: &str,
        package_name: String,
    ) -> (r: Vec<FoundDependency>)
        ensures
            r.deep_view() == spec_lock_report(contents@, dependency_name@, path@, package_name@),
            forall|k: int|
                0 <= k < r.deep_view().len() ==> (#[trigger] r.deep_view()[k]).package_name
                    == package_name@ && r.deep_view()[k].path == path@,
    {
        match decode_lock(contents) {
            None => {
                let r: Vec<FoundDependency> = Vec::new();
                proof {
                    assert(lock_of(contents@) is None);
                    assert(r.deep_view() =~= Seq::<RowView>::empty());
                }
                r
            },
            Some(lock_file) => {
                let r = self.extract_lock(&lock_file, dependency_name, path, package_name);
                proof {
                    let ev = lock_file.package.deep_view();
                    assert(r.deep_view() == lock_rows(ev, dependency_name@, path@,
                        package_name@));
                    lemma_lock_rows_fields(ev, dependency_name@, path@, package_name@);
                }
                r
            },
        }
    }

    /// Scans a decoded lock file: one row per entry whose name equals the
    /// target dependency, all under the given owning package name.
    #[verifier::loop_isolation(false)]
    pub fn extract_lock(
        &self,
        lock_file: &CLockFile,
        dependency_name: &str,
        path: &str,
        package_name: String,
    ) -> (r: Vec<FoundDependency>)
        ensures
            r.deep_view() == lock_rows(lock_file.package.deep_view(), dependency_name@, path@,
                package_name@),
    {
        let ghost ev = lock_file.package.deep_view();
        let mut res: Vec<FoundDependency> = Vec::new();
        proof {
            assert(ev.take(0) =~= Seq::<LockEntryView>::empty());
            assert(res.deep_view() =~= lock_rows(ev.take(0), dependency_name@, path@,
                package_name@));
        }
        let n = lock_file.package.len();
        let mut i: usize = 0;
        while i < n
            invariant
                i <= n,
                n == lock_file.package@.len(),
                ev == lock_file.package.deep_view(),
                ev.len() == n,
                res.deep_view() == lock_rows(ev.take(i as int), dependency_name@, path@,
                    package_name@),
            decreases n - i,
        {
            proof {
                assert(ev[i as int] == lock_file.package@[i as int].deep_view());
            }
            let is_match = str_eq(lock_file.package[i].name.as_str(), dependency_name);
            let ghost pre = res.deep_view();
            if is_match {
                let fd = FoundDependency {
                    package_name: package_name.clone(),
                    dep_version: lock_file.package[i].version.clone(),
                    path: path.to_owned(),
                };
                res.push(fd);
                proof {
                    assert(res.deep_view() =~= pre.push(fd.deep_view()));
                    assert(pre.push(fd.deep_view()) =~= pre + seq![fd.deep_view()]);
                }
            }
            proof {
                lemma_lock_rows_snoc(ev.take(i as int), ev[i as int], dependency_name@, path@,
                    package_name@);
                assert(ev.take(i as int + 1) =~= ev.take(i as int).push(ev[i as int]));
                if ev[i as int].name == dependency_name@ {
                    assert(res.deep_view() =~= lock_rows(ev.take(i as int + 1), dependency_name@,
                        path@, package_name@));
                } else {
                    assert(pre + Seq::<RowView>::empty() =~= pre);
                    assert(res.deep_view() =~= lock_rows(ev.take(i as int + 1), dependency_name@,
                        path@, package_name@));
                }
            }
            i = i + 1;
        }
        proof {
            assert(ev.take(n as int) =~= ev);
        }
        res
    }

    /// Decodes a manifest purely to recover its display name; an undecodable
    /// manifest degrades to the sentinel, never to an error.
    pub fn parse_name(&self, contents: &str) -> (r: String)
        ensures
            r@ == spec_fallback_name(contents@),
    {
        match decode_manifest(contents) {
            Err(_) => {
                let r = dash_string();
                proof {
                    assert(manifest_of(contents@) is None);
                }
                r
            },
            Ok(doc) => {
                let ghost m = doc.deep_view();
                proof {
                    assert(Some(m) == manifest_of(contents@));
                }
                match doc.package {
                    Some(p) => {
                        proof {
                            assert(p.name@ == display_name(m));
                        }
                        p.name
                    },
                    None => {
                        let r = dash_string();
                        proof {
                            assert(r@ == display_name(m));
                        }
                        r
                    },
                }
            },
        }
    }

    /// Processes one manifest/lock group: the manifest's rows, then — when a
    /// lock file is present — the lock's rows under the owning package name
    /// the manifest determined. A group without a manifest contributes
    /// nothing; a file that cannot be read aborts with its error.
    pub fn group_rows(&self, group: &CargoFiles, target_dep: &str) -> (r: Result<
        Vec<FoundDependency>,
        MoleError,
    >)
        ensures
            r is Ok <==> group_error(group.deep_view()) is None,
            match r {
                Ok(rows) => rows.deep_view() == spec_group_rows(group.deep_view(), target_dep@)
                    && (group.deep_view().ctoml is None ==> rows@.len() == 0),
                Err(e) => match e {
                    MoleError::Io(m) => Some(m@) == group_error(group.deep_view()),
                },
            },
    {
        let ghost g = group.deep_view();
        let mut found: Vec<FoundDependency> = Vec::new();
        match &group.ctoml {
            None => {
                proof {
                    assert(found.deep_view() =~= spec_group_rows(g, target_dep@));
                }
                Ok(found)
            },
            Some(mf) => match &mf.contents {
                Err(e) => Err(MoleError::Io(e.clone())),
                Ok(toml_text) => {
                    let mut rows = self.parse_toml(toml_text.as_str(), target_dep,
                        mf.path.as_str());
                    let ghost mrows = rows.deep_view();
                    let package_name: String = if rows.len() > 0 {
                        rows[0].package_name.clone()
                    } else {
                        self.parse_name(toml_text.as_str())
                    };
                    proof {
                        assert(mrows == spec_manifest_report(toml_text@, target_dep@, mf.path@));
                        assert(package_name@ == spec_group_owner(toml_text@, target_dep@,
                            mf.path@));
                    }
                    found.append(&mut rows);
                    proof {
                        assert(found.deep_view() =~= mrows);
                    }
                    match &group.clock {
                        None => {
                            proof {
                                assert(spec_group_rows(g, target_dep@) =~= mrows);
                            }
                            Ok(found)
                        },
                        Some(lf) => match &lf.contents {
                            Err(e) => Err(MoleError::Io(e.clone())),
                            Ok(lock_text) => {
                                let mut lrows = self.parse_lock(lock_text.as_str(), target_dep,
                                    lf.path.as_str(), package_name);
                                let ghost lv = lrows.deep_view();
                                found.append(&mut lrows);
                                proof {
                                    assert(found.deep_view() =~= mrows + lv);
                                    assert(spec_group_rows(g, target_dep@) =~= mrows + lv);
                                }
                                Ok(found)
                            },
                        },
                    }
                },
            },
        }
    }

    /// The whole scan: every group's rows, merged and sorted by path. The
    /// scan succeeds exactly when every listed file could be read; the first
    /// read error, in group order, aborts it with no rows at all.
    #[verifier::loop_isolation(false)]
    pub fn parse(&self, files: Vec<CargoFiles>, target_dep: &str) -> (r: Result<
        Vec<FoundDependency>,
        MoleError,
    >)
        ensures
            r is Ok <==> (forall|k: int|
                0 <= k < files.deep_view().len() ==> group_readable(
                    #[trigger] files.deep_view()[k],
                )),
            match r {
                Ok(rows) => sorted_by_path(rows@) && rows.deep_view() == sort_spec(
                    spec_all_rows(files.deep_view(), target_dep@),
                ) && rows.deep_view().to_multiset() == spec_all_rows(
                    files.deep_view(),
                    target_dep@,
                ).to_multiset() && (no_manifests(files.deep_view()) ==> rows@.len() == 0),
                Err(e) => match e {
                    MoleError::Io(m) => Some(m@) == first_error(files.deep_view()),
                },
            },
    {
        let ghost gv = files.deep_view();
        let mut found: Vec<FoundDependency> = Vec::new();
        proof {
            assert(gv.take(0) =~= Seq::<GroupView>::empty());
            assert(found.deep_view() =~= spec_all_rows(gv.take(0), target_dep@));
        }
        let n = files.len();
        let mut i: usize = 0;
        while i < n
            invariant
                i <= n,
                n == files@.len(),
                gv == files.deep_view(),
                gv.len() == n,
                forall|k: int| 0 <= k < i ==> group_error(#[trigger] gv[k]) is None,
                (forall|k: int| 0 <= k < i ==> (#[trigger] gv[k]).ctoml is None) ==> found@.len()
                    == 0,
                found.deep_view() == spec_all_rows(gv.take(i as int), target_dep@),
            decreases n - i,
        {
            proof {
                assert(gv[i as int] == files@[i as int].deep_view());
            }
            let gr = self.group_rows(&files[i], target_dep);
            match gr {
                Err(e) => {
                    proof {
                        lemma_first_error_skip(gv, i as int);
                        assert(gv.skip(i as int)[0] == gv[i as int]);
                        lemma_first_error_none_iff(gv);
                    }
                    return Err(e);
                },
                Ok(mut rows) => {
                    let ghost pre = found.deep_view();
                    let ghost rv = rows.deep_view();
                    found.append(&mut rows);
                    proof {
                        assert(found.deep_view() =~= pre + rv);
                        lemma_spec_all_rows_snoc(gv.take(i as int), gv[i as int], target_dep@);
                        assert(gv.take(i as int + 1) =~= gv.take(i as int).push(gv[i as int]));
                        assert(found.deep_view() =~= spec_all_rows(gv.take(i as int + 1),
                            target_dep@));
                    }
                },
            }
            i = i + 1;
        }
        proof {
            lemma_first_error_skip(gv, n as int);
            assert(gv.skip(n as int) =~= Seq::<GroupView>::empty());
            lemma_first_error_none_iff(gv);
            assert(gv.take(n as int) =~= gv);
        }
        let ghost pre_sort = found@;
        let ghost pre_dv = found.deep_view();
        sort_rows(&mut found);
        proof {
            pre_sort.to_multiset_ensures();
            found@.to_multiset_ensures();
            assert(rows_view(pre_sort) =~= pre_dv);
            assert(rows_view(found@) =~= found.deep_view());
            assert(found.deep_view().to_multiset() == spec_all_rows(gv,
                target_dep@).to_multiset());
            assert(found.deep_view() == sort_spec(spec_all_rows(gv, target_dep@)));
        }
        Ok(found)
    }
}

} // verus!
