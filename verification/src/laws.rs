//! The listing engine's guarantees, stated and proved over the same spec
//! functions its contracts use.
use vstd::prelude::*;

use crate::paginate::{
    effective_page, effective_page_size, page_slice, spec_total_pages,
};
use crate::query::{param_filter_views, present_predicates, query_matches, PredicateView};
use crate::sort::{row_le, spec_sort_column, Column};
use crate::user::{
    find_all_post, ids_unique, matching_rows, params_sort_key, Params, UserView,
};
use vstd::relations::sorted_by;

verus! {

/// Whether a listing request carries no filter at all.
pub open spec fn no_filters(params: Params) -> bool {
    &&& params.email is None
    &&& params.created_at_gte is None
    &&& params.created_at_lte is None
    &&& params.updated_at_gte is None
    &&& params.updated_at_lte is None
}

/// Filtering keeps every row that matches, in order.
proof fn lemma_filter_all_match(s: Seq<UserView>, pred: spec_fn(UserView) -> bool)
    requires
        forall|i: int| 0 <= i < s.len() ==> pred(#[trigger] s[i]),
    ensures
        s.filter(pred) == s,
    decreases s.len(),
{
    reveal_with_fuel(Seq::filter, 2);
    if s.len() == 0 {
        assert(s.filter(pred) =~= s);
    } else {
        lemma_filter_all_match(s.drop_last(), pred);
        assert(pred(s.last()));
        assert(s.filter(pred) =~= s.drop_last().push(s.last()));
        assert(s.drop_last().push(s.last()) =~= s);
    }
}

/// Narrowing with zero present filters keeps the full row set: before
/// pagination, a request without filters ranges over the whole table.
pub proof fn lemma_no_filters_full_set(table: Seq<UserView>, params: Params)
    requires
        no_filters(params),
    ensures
        matching_rows(table, params) == table,
{
    let fs = param_filter_views(params);
    assert(fs.len() == 5);
    assert(fs[0] is None && fs[1] is None && fs[2] is None && fs[3] is None && fs[4] is None);
    assert(fs.drop_last() =~= seq![fs[0], fs[1], fs[2], fs[3]]);
    assert(fs.drop_last().drop_last() =~= seq![fs[0], fs[1], fs[2]]);
    assert(fs.drop_last().drop_last().drop_last() =~= seq![fs[0], fs[1]]);
    assert(fs.drop_last().drop_last().drop_last().drop_last() =~= seq![fs[0]]);
    assert(fs.drop_last().drop_last().drop_last().drop_last().drop_last() =~= Seq::<
        Option<PredicateView>,
    >::empty());
    reveal_with_fuel(crate::query::present_predicates, 7);
    assert(present_predicates(fs).len() == 0);
    assert forall|i: int| 0 <= i < table.len() implies (|u: UserView|
        query_matches(u, present_predicates(param_filter_views(params))))(#[trigger] table[i]) by {
        assert(present_predicates(param_filter_views(params)).len() == 0);
    }
    lemma_filter_all_match(
        table,
        (|u: UserView| query_matches(u, present_predicates(param_filter_views(params)))),
    );
}

/// Every row a listing returns satisfies every present filter: in
/// particular each present inclusive timestamp bound; a row violating one
/// never appears.
pub proof fn lemma_listed_rows_match_filters(
    table: Seq<UserView>,
    params: Params,
    rows: Seq<UserView>,
    total_pages: int,
    total: int,
)
    requires
        find_all_post(table, params, rows, total_pages, total),
    ensures
        forall|i: int|
            0 <= i < rows.len() ==> query_matches(
                #[trigger] rows[i],
                present_predicates(param_filter_views(params)),
            ),
{
    broadcast use vstd::seq_lib::group_to_multiset_ensures;

    let filtered = matching_rows(table, params);
    let col = spec_sort_column(params_sort_key(params));
    let pred = (|u: UserView| query_matches(u, present_predicates(param_filter_views(params))));
    let sorted = choose|sorted: Seq<UserView>|
        {
            &&& #[trigger] sorted.to_multiset() == filtered.to_multiset()
            &&& sorted_by(sorted, (|x: UserView, y: UserView| row_le(col, x, y)))
            &&& rows == page_slice(
                sorted,
                effective_page(params.page),
                effective_page_size(params.page_size),
            )
        };
    broadcast use vstd::seq_lib::group_filter_ensures;

    assert forall|i: int| 0 <= i < rows.len() implies query_matches(
        #[trigger] rows[i],
        present_predicates(param_filter_views(params)),
    ) by {
        assert(sorted.contains(rows[i])) by {
            let offset = (effective_page(params.page) - 1) * effective_page_size(params.page_size);
            assert(rows[i] == sorted[offset + i]);
        }
        assert(sorted.to_multiset().count(rows[i]) > 0);
        assert(filtered.to_multiset().count(rows[i]) > 0);
        assert(filtered.contains(rows[i]));
        let j = choose|j: int| 0 <= j < filtered.len() && filtered[j] == rows[i];
        assert(pred(table.filter(pred)[j]));
    }
}

/// A page request beyond the last page returns no rows; the listing's
/// counts do not depend on the page request at all.
pub proof fn lemma_page_beyond_last(s: Seq<UserView>, page: int, size: int)
    requires
        1 <= size,
        1 <= page,
        page > spec_total_pages(s.len() as int, size),
    ensures
        page_slice(s, page, size) == Seq::<UserView>::empty(),
{
    crate::paginate::lemma_total_pages_bounds(s.len() as int, size);
    let tp = spec_total_pages(s.len() as int, size);
    assert((page - 1) * size >= tp * size) by (nonlinear_arith)
        requires
            page - 1 >= tp,
            size >= 1,
    ;
    assert(tp * size == size * tp) by (nonlinear_arith);
    assert((page - 1) * size >= s.len());
}

/// An unrecognized sort key resolves to the same column as an absent one:
/// the default ordering by id.
pub proof fn lemma_unrecognized_key_defaults(key: Seq<char>)
    requires
        key != "id"@,
        key != "email"@,
        key != "created_at"@,
        key != "updated_at"@,
    ensures
        spec_sort_column(Some(key)) == spec_sort_column(None::<Seq<char>>),
{
}

/// Filtering two ways with pointwise-equal predicates gives the same rows.
proof fn lemma_filter_congruence(
    s: Seq<UserView>,
    p1: spec_fn(UserView) -> bool,
    p2: spec_fn(UserView) -> bool,
)
    requires
        forall|u: UserView| #[trigger] p1(u) == #[trigger] p2(u),
    ensures
        s.filter(p1) == s.filter(p2),
    decreases s.len(),
{
    reveal_with_fuel(Seq::filter, 2);
    if s.len() == 0 {
        assert(s.filter(p1) =~= s.filter(p2));
    } else {
        lemma_filter_congruence(s.drop_last(), p1, p2);
        assert(s.filter(p1) =~= s.filter(p2));
    }
}

/// Removing the first element removes exactly it from the multiset.
proof fn lemma_drop_first_multiset(s: Seq<UserView>)
    requires
        s.len() > 0,
    ensures
        s.drop_first().to_multiset() == s.to_multiset().remove(s[0]),
{
    broadcast use vstd::multiset::group_multiset_axioms;
    broadcast use vstd::seq_lib::group_to_multiset_ensures;

    let rest = s.drop_first();
    crate::sort::lemma_insert_multiset(rest, 0, s[0]);
    assert(rest.insert(0, s[0]) =~= s);
    assert(rest.to_multiset() =~= s.to_multiset().remove(s[0]));
}

/// Two sequences of the same rows, both sorted ascending by id, are the
/// same sequence when no id repeats.
proof fn lemma_sorted_by_id_unique(x: Seq<UserView>, y: Seq<UserView>)
    requires
        sorted_by(x, (|a: UserView, b: UserView| row_le(Column::Id, a, b))),
        sorted_by(y, (|a: UserView, b: UserView| row_le(Column::Id, a, b))),
        x.to_multiset() == y.to_multiset(),
        ids_unique(x),
    ensures
        x == y,
    decreases x.len(),
{
    broadcast use vstd::seq_lib::group_to_multiset_ensures;
    broadcast use vstd::multiset::group_multiset_axioms;

    let leq = (|a: UserView, b: UserView| row_le(Column::Id, a, b));
    x.to_multiset_ensures();
    y.to_multiset_ensures();
    if x.len() == 0 {
        assert(y.to_multiset().len() == 0);
        assert(x =~= y);
    } else {
        assert(y.len() == x.len());
        assert(y.to_multiset().contains(y[0])) by {
            assert(y.contains(y[0]));
        }
        assert(x.to_multiset().contains(y[0]));
        assert(x.contains(y[0]));
        let i = choose|i: int| 0 <= i < x.len() && x[i] == y[0];
        assert(x.to_multiset().contains(x[0])) by {
            assert(x.contains(x[0]));
        }
        assert(y.to_multiset().contains(x[0]));
        assert(y.contains(x[0]));
        let j = choose|j: int| 0 <= j < y.len() && y[j] == x[0];
        if i > 0 {
            assert(leq(x[0], x[i]));
        }
        if j > 0 {
            assert(leq(y[0], y[j]));
        }
        assert(x[0].id == y[0].id);
        assert(i == 0) by {
            if i > 0 {
                assert(x[i].id == x[0].id);
            }
        }
        assert(x[0] == y[0]);
        lemma_drop_first_multiset(x);
        lemma_drop_first_multiset(y);
        assert(sorted_by(x.drop_first(), leq)) by {
            assert forall|k1: int, k2: int| 0 <= k1 < k2 < x.drop_first().len() implies #[trigger] leq(
                x.drop_first()[k1],
                x.drop_first()[k2],
            ) by {
                assert(x.drop_first()[k1] == x[k1 + 1] && x.drop_first()[k2] == x[k2 + 1]);
                assert(leq(x[k1 + 1], x[k2 + 1]));
            }
        }
        assert(sorted_by(y.drop_first(), leq)) by {
            assert forall|k1: int, k2: int| 0 <= k1 < k2 < y.drop_first().len() implies #[trigger] leq(
                y.drop_first()[k1],
                y.drop_first()[k2],
            ) by {
                assert(y.drop_first()[k1] == y[k1 + 1] && y.drop_first()[k2] == y[k2 + 1]);
                assert(leq(y[k1 + 1], y[k2 + 1]));
            }
        }
        assert(ids_unique(x.drop_first())) by {
            assert forall|k1: int, k2: int|
                0 <= k1 < k2 < x.drop_first().len() implies x.drop_first()[k1].id != x.drop_first(
            )[k2].id by {
                assert(x.drop_first()[k1] == x[k1 + 1] && x.drop_first()[k2] == x[k2 + 1]);
            }
        }
        lemma_sorted_by_id_unique(x.drop_first(), y.drop_first());
        assert(x =~= y) by {
            assert forall|k: int| 0 <= k < x.len() implies x[k] == y[k] by {
                if k > 0 {
                    assert(x.drop_first()[k - 1] == y.drop_first()[k - 1]);
                }
            }
        }
    }
}

/// Filtering never introduces a repeated id.
proof fn lemma_filter_keeps_ids_unique(s: Seq<UserView>, pred: spec_fn(UserView) -> bool)
    requires
        ids_unique(s),
    ensures
        ids_unique(s.filter(pred)),
    decreases s.len(),
{
    reveal_with_fuel(Seq::filter, 2);
    if s.len() > 0 {
        let rest = s.drop_last();
        assert(ids_unique(rest)) by {
            assert forall|k1: int, k2: int| 0 <= k1 < k2 < rest.len() implies rest[k1].id != rest[k2].id by {
                assert(rest[k1] == s[k1] && rest[k2] == s[k2]);
            }
        }
        lemma_filter_keeps_ids_unique(rest, pred);
        let f = s.filter(pred);
        let fr = rest.filter(pred);
        if pred(s.last()) {
            assert(f =~= fr.push(s.last()));
            assert forall|k1: int, k2: int| 0 <= k1 < k2 < f.len() implies f[k1].id != f[k2].id by {
                if k2 < f.len() - 1 {
                    assert(f[k1] == fr[k1] && f[k2] == fr[k2]);
                } else {
                    assert(f[k1] == fr[k1] && f[k2] == s.last());
                    assert(fr.contains(fr[k1]));
                    rest.lemma_filter_contains_rev(pred, fr[k1]);
                    let m = choose|m: int| 0 <= m < rest.len() && rest[m] == fr[k1];
                    assert(rest[m] == s[m]);
                    assert(s[m].id != s[s.len() - 1].id);
                }
            }
        } else {
            assert(f =~= fr);
        }
    }
}

/// The same rows rearranged still hold no repeated id.
proof fn lemma_ids_unique_transfer(a: Seq<UserView>, b: Seq<UserView>)
    requires
        a.to_multiset() == b.to_multiset(),
        ids_unique(a),
    ensures
        ids_unique(b),
{
    broadcast use vstd::seq_lib::group_to_multiset_ensures;
    broadcast use vstd::multiset::group_multiset_axioms;

    a.to_multiset_ensures();
    b.to_multiset_ensures();
    assert forall|k1: int, k2: int| 0 <= k1 < k2 < b.len() implies b[k1].id != b[k2].id by {
        if b[k1].id == b[k2].id {
            if b[k1] != b[k2] {
                assert(b.contains(b[k1]) && b.contains(b[k2]));
                assert(b.to_multiset().count(b[k1]) > 0 && b.to_multiset().count(b[k2]) > 0);
                assert(a.to_multiset().count(b[k1]) > 0 && a.to_multiset().count(b[k2]) > 0);
                assert(a.contains(b[k1]) && a.contains(b[k2]));
                let i1 = choose|i: int| 0 <= i < a.len() && a[i] == b[k1];
                let i2 = choose|i: int| 0 <= i < a.len() && a[i] == b[k2];
                assert(i1 != i2);
                assert(a[i1].id != a[i2].id);
            } else {
                let v = b[k1];
                assert(b.remove(k2).to_multiset() =~= b.to_multiset().remove(v));
                assert(b.remove(k2)[k1] == v);
                assert(b.remove(k2).contains(v));
                assert(b.to_multiset().remove(v).count(v) > 0);
                assert(a.to_multiset().count(v) >= 2);
                assert(a.contains(v));
                let i1 = choose|i: int| 0 <= i < a.len() && a[i] == v;
                assert(a.remove(i1).to_multiset() =~= a.to_multiset().remove(v));
                assert(a.remove(i1).to_multiset().count(v) > 0);
                assert(a.remove(i1).contains(v));
                let i2p = choose|i: int| 0 <= i < a.remove(i1).len() && a.remove(i1)[i] == v;
                if i2p < i1 {
                    assert(a.remove(i1)[i2p] == a[i2p]);
                    assert(a[i2p].id != a[i1].id);
                } else {
                    assert(a.remove(i1)[i2p] == a[i2p + 1]);
                    assert(a[i2p + 1].id != a[i1].id);
                }
            }
        }
    }
}

/// Sorting by an unrecognized key lists exactly what no sort key lists:
/// the same filters and page request over the same table return the same
/// rows and the same counts, both falling back to the default order
/// by id.
pub proof fn lemma_unrecognized_sort_key_same_listing(
    table: Seq<UserView>,
    p1: Params,
    p2: Params,
    rows1: Seq<UserView>,
    tp1: int,
    tc1: int,
    rows2: Seq<UserView>,
    tp2: int,
    tc2: int,
)
    requires
        ids_unique(table),
        find_all_post(table, p1, rows1, tp1, tc1),
        find_all_post(table, p2, rows2, tp2, tc2),
        param_filter_views(p1) == param_filter_views(p2),
        p1.page == p2.page,
        p1.page_size == p2.page_size,
        spec_sort_column(params_sort_key(p1)) == Column::Id,
        spec_sort_column(params_sort_key(p2)) == Column::Id,
    ensures
        rows1 == rows2,
        tp1 == tp2,
        tc1 == tc2,
{
    let pred1 = (|u: UserView| query_matches(u, present_predicates(param_filter_views(p1))));
    let pred2 = (|u: UserView| query_matches(u, present_predicates(param_filter_views(p2))));
    assert forall|u: UserView| #[trigger] pred1(u) == #[trigger] pred2(u) by {
        assert(param_filter_views(p1) == param_filter_views(p2));
    }
    lemma_filter_congruence(table, pred1, pred2);
    let filtered = matching_rows(table, p1);
    assert(matching_rows(table, p2) == filtered);
    let sorted1 = choose|sorted: Seq<UserView>|
        {
            &&& #[trigger] sorted.to_multiset() == filtered.to_multiset()
            &&& sorted_by(sorted, (|x: UserView, y: UserView| row_le(Column::Id, x, y)))
            &&& rows1 == page_slice(
                sorted,
                effective_page(p1.page),
                effective_page_size(p1.page_size),
            )
        };
    let sorted2 = choose|sorted: Seq<UserView>|
        {
            &&& #[trigger] sorted.to_multiset() == filtered.to_multiset()
            &&& sorted_by(sorted, (|x: UserView, y: UserView| row_le(Column::Id, x, y)))
            &&& rows2 == page_slice(
                sorted,
                effective_page(p2.page),
                effective_page_size(p2.page_size),
            )
        };
    lemma_filter_keeps_ids_unique(table, pred1);
    lemma_ids_unique_transfer(filtered, sorted1);
    lemma_sorted_by_id_unique(sorted1, sorted2);
    assert(rows1 == rows2);
}

} // verus!
