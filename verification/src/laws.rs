//! The stated laws of the scan, proved once and for all over the spec
//! functions that the parsers' contracts are written in.

use vstd::prelude::*;
use crate::data::{DepView, LockEntryView, ManifestView, RowView, dash, dep_version_view,
    display_name, doc_tables, lemma_lock_rows_fields, lock_rows, manifest_rows, table_match,
    table_row, table_rows, tables_rows, target_tables};

verus! {

/// Some entry of the table has the target as its key.
pub open spec fn table_has(t: Seq<(Seq<char>, DepView)>, target: Seq<char>) -> bool {
    exists|i: int| 0 <= i < t.len() && (#[trigger] t[i]).0 == target
}

/// An optional table contributes a row to the scan.
pub open spec fn table_contributes(
    t: Option<Seq<(Seq<char>, DepView)>>,
    target: Seq<char>,
) -> bool {
    match t {
        Some(tb) => table_match(tb, target) is Some,
        None => false,
    }
}

/// How many of the tables contribute a row.
pub open spec fn match_count(
    tabs: Seq<Option<Seq<(Seq<char>, DepView)>>>,
    target: Seq<char>,
) -> int
    decreases tabs.len(),
{
    if tabs.len() == 0 {
        0
    } else {
        (if table_contributes(tabs[0], target) {
            1int
        } else {
            0int
        }) + match_count(tabs.skip(1), target)
    }
}

/// How many lock entries carry the target as their name.
pub open spec fn lock_match_count(entries: Seq<LockEntryView>, target: Seq<char>) -> int
    decreases entries.len(),
{
    if entries.len() == 0 {
        0
    } else {
        (if entries[0].name == target {
            1int
        } else {
            0int
        }) + lock_match_count(entries.skip(1), target)
    }
}

/// No two entries of the table share a key, as a manifest's tables guarantee.
pub open spec fn unique_keys(t: Seq<(Seq<char>, DepView)>) -> bool {
    forall|i: int, j: int|
        0 <= i < j < t.len() ==> (#[trigger] t[i]).0 != (#[trigger] t[j]).0
}

/// A table scan finds a version exactly when some entry has the target key.
pub proof fn lemma_table_match_iff(t: Seq<(Seq<char>, DepView)>, target: Seq<char>)
    ensures
        table_match(t, target) is Some <==> table_has(t, target),
    decreases t.len(),
{
    if t.len() == 0 {
    } else if t[0].0 == target {
        assert(table_has(t, target));
    } else {
        lemma_table_match_iff(t.skip(1), target);
        if table_has(t.skip(1), target) {
            let i = choose|i: int|
                0 <= i < t.skip(1).len() && (#[trigger] t.skip(1)[i]).0 == target;
            assert(t[i + 1] == t.skip(1)[i]);
            assert(table_has(t, target));
        }
        if table_has(t, target) {
            let i = choose|i: int| 0 <= i < t.len() && (#[trigger] t[i]).0 == target;
            assert(i > 0);
            assert(t.skip(1)[i - 1] == t[i]);
            assert(table_has(t.skip(1), target));
        }
    }
}

/// The scan of a list of tables yields exactly one row per contributing one.
pub proof fn lemma_tables_rows_count(
    tabs: Seq<Option<Seq<(Seq<char>, DepView)>>>,
    target: Seq<char>,
    name: Seq<char>,
    path: Seq<char>,
)
    ensures
        tables_rows(tabs, target, name, path).len() == match_count(tabs, target),
    decreases tabs.len(),
{
    if tabs.len() > 0 {
        lemma_tables_rows_count(tabs.skip(1), target, name, path);
    }
}

/// LAW. The Manifest Parser reports exactly one row per table scanned that
/// contains the target dependency: the flat tables and every
/// target-conditional section's tables are additive, never exclusive.
pub proof fn law_one_row_per_matching_table(m: ManifestView, target: Seq<char>, path: Seq<char>)
    ensures
        manifest_rows(m, target, path).len() == match_count(doc_tables(m), target),
{
    lemma_tables_rows_count(doc_tables(m), target, display_name(m), path);
}

/// A count over tables none of which contributes is zero.
proof fn lemma_match_count_zero(tabs: Seq<Option<Seq<(Seq<char>, DepView)>>>, target: Seq<char>)
    requires
        forall|i: int| 0 <= i < tabs.len() ==> !table_contributes(#[trigger] tabs[i], target),
    ensures
        match_count(tabs, target) == 0,
    decreases tabs.len(),
{
    if tabs.len() > 0 {
        assert forall|i: int| 0 <= i < tabs.skip(1).len() implies !table_contributes(
            #[trigger] tabs.skip(1)[i],
            target,
        ) by {
            assert(tabs.skip(1)[i] == tabs[i + 1]);
        }
        lemma_match_count_zero(tabs.skip(1), target);
    }
}

/// LAW. A manifest in which no table holds the target dependency's key
/// contributes no rows at all.
pub proof fn law_no_match_no_rows(m: ManifestView, target: Seq<char>, path: Seq<char>)
    requires
        forall|i: int|
            0 <= i < doc_tables(m).len() ==> match #[trigger] doc_tables(m)[i] {
                Some(t) => !table_has(t, target),
                None => true,
            },
    ensures
        manifest_rows(m, target, path).len() == 0,
{
    let tabs = doc_tables(m);
    assert forall|i: int| 0 <= i < tabs.len() implies !table_contributes(
        #[trigger] tabs[i],
        target,
    ) by {
        match tabs[i] {
            Some(t) => {
                lemma_table_match_iff(t, target);
            },
            None => {},
        }
    }
    lemma_match_count_zero(tabs, target);
    law_one_row_per_matching_table(m, target, path);
}

/// With unique keys, the scan reports the version of the entry that has the
/// target key, wherever it stands.
pub proof fn lemma_table_match_at(t: Seq<(Seq<char>, DepView)>, target: Seq<char>, i: int)
    requires
        unique_keys(t),
        0 <= i < t.len(),
        t[i].0 == target,
    ensures
        table_match(t, target) == Some(dep_version_view(t[i].1)),
    decreases i,
{
    if i == 0 {
    } else {
        assert(t[0].0 != t[i].0);
        assert forall|a: int, b: int| 0 <= a < b < t.skip(1).len() implies (#[trigger] t.skip(
            1,
        )[a]).0 != (#[trigger] t.skip(1)[b]).0 by {
            assert(t.skip(1)[a] == t[a + 1]);
            assert(t.skip(1)[b] == t[b + 1]);
        }
        assert(t.skip(1)[i - 1] == t[i]);
        lemma_table_match_at(t.skip(1), target, i - 1);
    }
}

/// LAW. A bare-version declaration of the target yields exactly one row of
/// this table, whose version is the literal string.
pub proof fn law_bare_version_row(
    t: Seq<(Seq<char>, DepView)>,
    target: Seq<char>,
    name: Seq<char>,
    path: Seq<char>,
    v: Seq<char>,
)
    requires
        unique_keys(t),
        exists|i: int|
            0 <= i < t.len() && (#[trigger] t[i]).0 == target && t[i].1 == DepView::Simple(v),
    ensures
        table_rows(Some(t), target, name, path) == seq![
            RowView { package_name: name, dep_version: v, path: path },
        ],
{
    let i = choose|i: int|
        0 <= i < t.len() && (#[trigger] t[i]).0 == target && t[i].1 == DepView::Simple(v);
    lemma_table_match_at(t, target, i);
}

/// LAW. A detailed declaration of the target without a version field yields
/// exactly one row of this table, with the sentinel version.
pub proof fn law_detailed_missing_version_row(
    t: Seq<(Seq<char>, DepView)>,
    target: Seq<char>,
    name: Seq<char>,
    path: Seq<char>,
)
    requires
        unique_keys(t),
        exists|i: int|
            0 <= i < t.len() && (#[trigger] t[i]).0 == target && t[i].1 == DepView::Detailed(
                None,
            ),
    ensures
        table_rows(Some(t), target, name, path) == seq![
            RowView { package_name: name, dep_version: dash(), path: path },
        ],
{
    let i = choose|i: int|
        0 <= i < t.len() && (#[trigger] t[i]).0 == target && t[i].1 == DepView::Detailed(None);
    lemma_table_match_at(t, target, i);
}

/// LAW. Every row the Lock Parser reports carries the owning package name
/// that was passed in — never the lock entry's own name — and the lock
/// file's path.
pub proof fn law_lock_rows_owner(
    entries: Seq<LockEntryView>,
    target: Seq<char>,
    path: Seq<char>,
    owner: Seq<char>,
)
    ensures
        forall|k: int|
            0 <= k < lock_rows(entries, target, path, owner).len() ==> (#[trigger] lock_rows(
                entries,
                target,
                path,
                owner,
            )[k]).package_name == owner && lock_rows(entries, target, path, owner)[k].path == path,
{
    lemma_lock_rows_fields(entries, target, path, owner);
}

/// LAW. The Lock Parser reports exactly one row per lock entry named like
/// the target: duplicate resolved versions are all reported, never merged.
pub proof fn law_one_row_per_lock_entry(
    entries: Seq<LockEntryView>,
    target: Seq<char>,
    path: Seq<char>,
    owner: Seq<char>,
)
    ensures
        lock_rows(entries, target, path, owner).len() == lock_match_count(entries, target),
    decreases entries.len(),
{
    if entries.len() > 0 {
        law_one_row_per_lock_entry(entries.skip(1), target, path, owner);
    }
}

/// The target-conditional sections contribute two tables each, in order.
pub proof fn lemma_target_tables_index(ts: Seq<crate::data::TargetView>, j: int)
    requires
        0 <= j < ts.len(),
    ensures
        target_tables(ts).len() == 2 * ts.len(),
        target_tables(ts)[2 * j] == ts[j].dependencies,
        target_tables(ts)[2 * j + 1] == ts[j].dev_dependencies,
    decreases j,
{
    lemma_target_tables_len(ts);
    if j == 0 {
    } else {
        lemma_target_tables_index(ts.skip(1), j - 1);
        assert(ts.skip(1)[j - 1] == ts[j]);
    }
}

/// The target-conditional sections contribute two tables each.
pub proof fn lemma_target_tables_len(ts: Seq<crate::data::TargetView>)
    ensures
        target_tables(ts).len() == 2 * ts.len(),
    decreases ts.len(),
{
    if ts.len() > 0 {
        lemma_target_tables_len(ts.skip(1));
    }
}

/// A count over tables is never negative.
proof fn lemma_match_count_nonneg(tabs: Seq<Option<Seq<(Seq<char>, DepView)>>>, target: Seq<char>)
    ensures
        match_count(tabs, target) >= 0,
    decreases tabs.len(),
{
    if tabs.len() > 0 {
        lemma_match_count_nonneg(tabs.skip(1), target);
    }
}

/// Two distinct contributing tables make the count at least two.
proof fn lemma_match_count_pair(
    tabs: Seq<Option<Seq<(Seq<char>, DepView)>>>,
    target: Seq<char>,
    i1: int,
    i2: int,
)
    requires
        0 <= i1 < i2 < tabs.len(),
        table_contributes(tabs[i1], target),
        table_contributes(tabs[i2], target),
    ensures
        match_count(tabs, target) >= 2,
    decreases tabs.len(),
{
    assert(tabs.skip(1)[i2 - 1] == tabs[i2]);
    if i1 == 0 {
        lemma_match_count_single(tabs.skip(1), target, i2 - 1);
    } else {
        assert(tabs.skip(1)[i1 - 1] == tabs[i1]);
        lemma_match_count_pair(tabs.skip(1), target, i1 - 1, i2 - 1);
    }
}

/// One contributing table makes the count at least one.
proof fn lemma_match_count_single(
    tabs: Seq<Option<Seq<(Seq<char>, DepView)>>>,
    target: Seq<char>,
    i: int,
)
    requires
        0 <= i < tabs.len(),
        table_contributes(tabs[i], target),
    ensures
        match_count(tabs, target) >= 1,
    decreases tabs.len(),
{
    lemma_match_count_nonneg(tabs.skip(1), target);
    if i > 0 {
        assert(tabs.skip(1)[i - 1] == tabs[i]);
        lemma_match_count_single(tabs.skip(1), target, i - 1);
    }
}

/// LAW. A target-conditional section's match is additive to a flat-table
/// match, not exclusive: a manifest with the target dependency both in its
/// flat dependency table and in some section's dependency table yields at
/// least two rows.
pub proof fn law_conditional_additive(m: ManifestView, target: Seq<char>, path: Seq<char>, j: int)
    requires
        m.dependencies matches Some(t) && table_has(t, target),
        m.targets is Some,
        0 <= j < m.targets->0.len(),
        m.targets->0[j].dependencies matches Some(tt) && table_has(tt, target),
    ensures
        manifest_rows(m, target, path).len() >= 2,
{
    let tabs = doc_tables(m);
    let ts = m.targets->0;
    let t2 = seq![m.dependencies, m.dev_dependencies];
    assert(tabs == t2 + target_tables(ts));
    lemma_target_tables_index(ts, j);
    assert(tabs[0] == m.dependencies);
    assert(tabs[2 + 2 * j] == target_tables(ts)[2 * j]);
    lemma_table_match_iff(m.dependencies->0, target);
    lemma_table_match_iff(ts[j].dependencies->0, target);
    lemma_match_count_pair(tabs, target, 0, 2 + 2 * j);
    law_one_row_per_matching_table(m, target, path);
}

} // verus!
