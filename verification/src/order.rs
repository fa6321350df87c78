//! The order of the final report: rows sorted by source path, ascending.
//! The comparison is lexicographic over the path's characters, by code point.

use vstd::prelude::*;
use vstd::string::StrSliceExecFns;
use crate::data::{FoundDependency, RowView};

verus! {

/// Lexicographic comparison of `a` and `b` from position `i` on: the first
/// differing character decides; a sequence that runs out first comes first.
pub open spec fn lex_le_from(a: Seq<char>, b: Seq<char>, i: int) -> bool
    decreases a.len() - i,
{
    if i >= a.len() {
        true
    } else if i >= b.len() {
        false
    } else if (a[i] as u32) < (b[i] as u32) {
        true
    } else if (a[i] as u32) > (b[i] as u32) {
        false
    } else {
        lex_le_from(a, b, i + 1)
    }
}

/// `a` comes before `b` (or equals it) in lexicographic order.
pub open spec fn lex_le(a: Seq<char>, b: Seq<char>) -> bool {
    lex_le_from(a, b, 0)
}

/// The rows' spec views, in the rows' order.
pub open spec fn rows_view(s: Seq<FoundDependency>) -> Seq<RowView> {
    Seq::new(s.len(), |i: int| s[i].deep_view())
}

/// The rows stand in ascending path order.
pub open spec fn sorted_by_path(s: Seq<FoundDependency>) -> bool {
    forall|i: int, j: int| 0 <= i < j < s.len() ==> lex_le(s[i].path@, s[j].path@)
}

/// Lexicographic order is total: one of the two directions always holds.
pub proof fn lemma_lex_le_total_from(a: Seq<char>, b: Seq<char>, i: int)
    ensures
        lex_le_from(a, b, i) || lex_le_from(b, a, i),
    decreases a.len() - i,
{
    if i < a.len() && i < b.len() && (a[i] as u32) == (b[i] as u32) {
        lemma_lex_le_total_from(a, b, i + 1);
    }
}

/// Lexicographic order is total.
pub proof fn lemma_lex_le_total(a: Seq<char>, b: Seq<char>)
    ensures
        lex_le(a, b) || lex_le(b, a),
{
    lemma_lex_le_total_from(a, b, 0);
}

/// Lexicographic order is transitive, from any common position on.
pub proof fn lemma_lex_le_trans_from(a: Seq<char>, b: Seq<char>, c: Seq<char>, i: int)
    requires
        lex_le_from(a, b, i),
        lex_le_from(b, c, i),
    ensures
        lex_le_from(a, c, i),
    decreases a.len() - i,
{
    if i < a.len() && i < b.len() && i < c.len() && (a[i] as u32) == (b[i] as u32) && (b[i] as u32)
        == (c[i] as u32) {
        lemma_lex_le_trans_from(a, b, c, i + 1);
    }
}

/// Lexicographic order is transitive.
pub proof fn lemma_lex_le_trans(a: Seq<char>, b: Seq<char>, c: Seq<char>)
    requires
        lex_le(a, b),
        lex_le(b, c),
    ensures
        lex_le(a, c),
{
    lemma_lex_le_trans_from(a, b, c, 0);
}

/// Decides the lexicographic order of two strings.
pub fn str_le(a: &str, b: &str) -> (r: bool)
    ensures
        r == lex_le(a@, b@),
{
    let alen: usize = a.unicode_len();
    let blen: usize = b.unicode_len();
    let mut i: usize = 0;
    loop
        invariant
            i <= alen,
            i <= blen,
            alen == a@.len(),
            blen == b@.len(),
            lex_le(a@, b@) == lex_le_from(a@, b@, i as int),
        decreases alen - i,
    {
        if i >= alen {
            return true;
        }
        if i >= blen {
            return false;
        }
        let ca = a.get_char(i);
        let cb = b.get_char(i);
        let cau = ca as u32;
        let cbu = cb as u32;
        if cau < cbu {
            return true;
        }
        if cau > cbu {
            return false;
        }
        i = i + 1;
    }
}

/// Where insertion sort places a row: after every row it is not strictly
/// below, so rows with equal paths keep their insertion order.
pub open spec fn insert_sorted(s: Seq<RowView>, x: RowView) -> Seq<RowView>
    decreases s.len(),
{
    if s.len() == 0 {
        seq![x]
    } else if lex_le(s.last().path, x.path) {
        s.push(x)
    } else {
        insert_sorted(s.drop_last(), x).push(s.last())
    }
}

/// The stable insertion sort of the rows, by path, ascending.
pub open spec fn sort_spec(s: Seq<RowView>) -> Seq<RowView>
    decreases s.len(),
{
    if s.len() == 0 {
        Seq::<RowView>::empty()
    } else {
        insert_sorted(sort_spec(s.drop_last()), s.last())
    }
}

/// The insertion point determines the result: before the tail of rows
/// strictly above `x`, after the last row not strictly above it.
proof fn lemma_insert_sorted_at(s: Seq<RowView>, x: RowView, j: int)
    requires
        0 <= j <= s.len(),
        forall|k: int| j <= k < s.len() ==> !lex_le((#[trigger] s[k]).path, x.path),
        j > 0 ==> lex_le(s[j - 1].path, x.path),
    ensures
        insert_sorted(s, x) == s.insert(j, x),
    decreases s.len(),
{
    if s.len() == 0 {
        assert(s.insert(0, x) =~= seq![x]);
    } else if j == s.len() {
        assert(lex_le(s.last().path, x.path));
        assert(s.insert(j, x) =~= s.push(x));
    } else {
        assert(!lex_le(s[s.len() - 1].path, x.path));
        assert(s.drop_last() =~= s.take(s.len() - 1));
        assert forall|k: int| j <= k < s.drop_last().len() implies !lex_le(
            (#[trigger] s.drop_last()[k]).path,
            x.path,
        ) by {
            assert(s.drop_last()[k] == s[k]);
        }
        if j > 0 {
            assert(s.drop_last()[j - 1] == s[j - 1]);
        }
        lemma_insert_sorted_at(s.drop_last(), x, j);
        assert(insert_sorted(s, x) =~= s.insert(j, x)) by {
            s.drop_last().insert_ensures(j, x);
            s.insert_ensures(j, x);
        }
    }
}

/// Inserting an element anywhere adds exactly it to the sequence's multiset.
proof fn lemma_insert_to_multiset<A>(s: Seq<A>, j: int, x: A)
    requires
        0 <= j <= s.len(),
    ensures
        s.insert(j, x).to_multiset() == s.to_multiset().insert(x),
{
    broadcast use vstd::seq_lib::group_to_multiset_ensures;
    broadcast use vstd::multiset::group_multiset_axioms;

    let a = s.subrange(0, j);
    let b = s.subrange(j, s.len() as int);
    vstd::seq_lib::lemma_multiset_commutative(a.push(x), b);
    vstd::seq_lib::lemma_multiset_commutative(a, b);
    assert(s =~= a + b);
    assert(a.push(x).to_multiset() =~= a.to_multiset().insert(x));
    assert(s.insert(j, x).to_multiset() =~= s.to_multiset().insert(x));
}

/// Sorts the rows by path, ascending, keeping exactly the same rows.
pub fn sort_rows(rows: &mut Vec<FoundDependency>)
    ensures
        sorted_by_path(final(rows)@),
        final(rows)@.to_multiset() == old(rows)@.to_multiset(),
        rows_view(final(rows)@).to_multiset() == rows_view(old(rows)@).to_multiset(),
        rows_view(final(rows)@) == sort_spec(rows_view(old(rows)@)),
{
    broadcast use vstd::seq_lib::group_to_multiset_ensures;
    broadcast use vstd::multiset::group_multiset_axioms;

    let n = rows.len();
    if n <= 1 {
        proof {
            let ov = rows_view(rows@);
            assert(sort_spec(Seq::<RowView>::empty()) == Seq::<RowView>::empty());
            if n == 1 {
                assert(ov.drop_last() =~= Seq::<RowView>::empty());
                assert(sort_spec(ov.drop_last()) == Seq::<RowView>::empty());
                assert(insert_sorted(Seq::<RowView>::empty(), ov.last()) =~= ov);
            } else {
                assert(ov =~= Seq::<RowView>::empty());
            }
            assert(rows_view(rows@) == sort_spec(rows_view(rows@)));
        }
        return;
    }
    proof {
        let ov = rows_view(old(rows)@);
        assert(ov.take(1).drop_last() =~= Seq::<RowView>::empty());
        assert(sort_spec(Seq::<RowView>::empty()) == Seq::<RowView>::empty());
        assert(sort_spec(ov.take(1).drop_last()) == Seq::<RowView>::empty());
        assert(insert_sorted(Seq::<RowView>::empty(), ov.take(1).last()) =~= ov.take(1));
        assert(sort_spec(ov.take(1)) == ov.take(1));
        assert(rows_view(rows@).take(1) =~= ov.take(1));
        assert(rows_view(rows@).skip(1) =~= ov.skip(1));
    }
    let mut i: usize = 1;
    while i < n
        invariant
            1 <= i <= n,
            n == rows@.len(),
            forall|k: int, l: int| 0 <= k < l < i ==> lex_le(rows@[k].path@, rows@[l].path@),
            rows@.to_multiset() == old(rows)@.to_multiset(),
            rows_view(rows@).to_multiset() == rows_view(old(rows)@).to_multiset(),
            n == old(rows)@.len(),
            rows_view(rows@).take(i as int) == sort_spec(rows_view(old(rows)@).take(i as int)),
            rows_view(rows@).skip(i as int) =~= rows_view(old(rows)@).skip(i as int),
        decreases n - i,
    {
        let ghost s0 = rows@;
        let x = rows.remove(i);
        let ghost s1 = rows@;
        let mut j: usize = i;
        loop
            invariant
                j <= i,
                i < n,
                n == s1.len() + 1,
                rows@ == s1,
                forall|k: int, l: int| 0 <= k < l < i ==> lex_le(s1[k].path@, s1[l].path@),
                forall|k: int| j <= k < i ==> lex_le(x.path@, s1[k].path@),
                forall|k: int| j <= k < i ==> !lex_le((#[trigger] s1[k]).path@, x.path@),
            ensures
                j <= i,
                rows@ == s1,
                forall|k: int| j <= k < i ==> lex_le(x.path@, s1[k].path@),
                forall|k: int| j <= k < i ==> !lex_le((#[trigger] s1[k]).path@, x.path@),
                j == 0 || lex_le(s1[j - 1].path@, x.path@),
            decreases j,
        {
            if j == 0 {
                break;
            }
            let prev_le_x = str_le(rows[j - 1].path.as_str(), x.path.as_str());
            if prev_le_x {
                break;
            }
            proof {
                lemma_lex_le_total(s1[j - 1].path@, x.path@);
            }
            j = j - 1;
        }
        rows.insert(j, x);
        proof {
            broadcast use vstd::multiset::group_multiset_axioms;

            lemma_insert_to_multiset(s1, j as int, x);
            s0.to_multiset_ensures();
            assert(x == s0[i as int]);
            assert(s1 == s0.remove(i as int));
            assert(s1.to_multiset() == s0.to_multiset().remove(s0[i as int]));
            assert(s0.contains(x));
            assert(s0.to_multiset().count(x) > 0);
            assert(rows@.to_multiset() =~= s0.to_multiset());
            // The same permutation facts, over the rows' views.
            let v0 = rows_view(s0);
            let v1 = rows_view(s1);
            assert(v1 =~= v0.remove(i as int)) by {
                s0.remove_ensures(i as int);
                v0.remove_ensures(i as int);
            }
            v0.to_multiset_ensures();
            assert(v0.remove(i as int).to_multiset() == v0.to_multiset().remove(v0[i as int]));
            assert(v0[i as int] == x.deep_view());
            assert(v0.contains(x.deep_view()));
            assert(v0.to_multiset().count(x.deep_view()) > 0);
            assert(rows_view(rows@) =~= v1.insert(j as int, x.deep_view())) by {
                s1.insert_ensures(j as int, x);
                v1.insert_ensures(j as int, x.deep_view());
            }
            lemma_insert_to_multiset(v1, j as int, x.deep_view());
            assert(rows_view(rows@).to_multiset() =~= v0.to_multiset());
            // The new prefix is exactly where the spec insertion sort puts x.
            let ov = rows_view(old(rows)@);
            let xv = x.deep_view();
            assert(ov.len() == n);
            assert(v0.len() == n);
            s0.remove_ensures(i as int);
            s1.insert_ensures(j as int, x);
            assert(v0[i as int] == ov[i as int]) by {
                assert(v0.skip(i as int)[0] == v0[i as int]);
                assert(ov.skip(i as int)[0] == ov[i as int]);
            }
            assert(xv == ov[i as int]);
            let sp = v0.take(i as int);
            assert(sp == sort_spec(ov.take(i as int)));
            assert forall|k: int| j <= k < sp.len() implies !lex_le(
                (#[trigger] sp[k]).path,
                xv.path,
            ) by {
                assert(sp[k] == s1[k].deep_view());
            }
            if j > 0 {
                assert(sp[j - 1] == s1[j - 1].deep_view());
            }
            lemma_insert_sorted_at(sp, xv, j as int);
            assert(rows_view(rows@).take(i as int + 1) =~= sp.insert(j as int, xv)) by {
                sp.insert_ensures(j as int, xv);
            }
            assert(ov.take(i as int + 1).drop_last() =~= ov.take(i as int));
            assert(ov.take(i as int + 1).last() == ov[i as int]);
            assert(sort_spec(ov.take(i as int + 1)) == insert_sorted(sort_spec(ov.take(i as int)),
                xv));
            assert(rows_view(rows@).take(i as int + 1) == sort_spec(ov.take(i as int + 1)));
            assert forall|k: int| 0 <= k < rows_view(rows@).skip(i as int + 1).len() implies (
            #[trigger] rows_view(rows@).skip(i as int + 1)[k]) == ov.skip(i as int + 1)[k] by {
                assert(rows@[k + i + 1] == s1[k + i]);
                assert(s1[k + i] == s0[k + i + 1]);
                assert(ov.skip(i as int + 1)[k] == ov[k + i + 1]);
                assert(v0.skip(i as int)[k + 1] == v0[k + i + 1]);
                assert(ov.skip(i as int)[k + 1] == ov[k + i + 1]);
            }
            assert(rows_view(rows@).skip(i as int + 1) =~= ov.skip(i as int + 1));
            // The new prefix of length i + 1 is sorted.
            assert forall|k: int| 0 <= k < j implies lex_le(s1[k].path@, x.path@) by {
                if k < j - 1 {
                    lemma_lex_le_trans(s1[k].path@, s1[j - 1].path@, x.path@);
                }
            }
            assert forall|k: int, l: int| 0 <= k < l < i + 1 implies lex_le(
                rows@[k].path@,
                rows@[l].path@,
            ) by {
                assert(rows@ == s1.insert(j as int, x));
                s1.insert_ensures(j as int, x);
            }
        }
        i = i + 1;
    }
    proof {
        let ov = rows_view(old(rows)@);
        assert(ov.take(n as int) =~= ov);
        assert(rows_view(rows@).take(n as int) =~= rows_view(rows@));
        assert(rows_view(rows@) == sort_spec(ov));
    }
}

} // verus!
