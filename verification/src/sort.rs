//! The sort dispatcher and the ordering it applies: a client-supplied key
//! is matched against the fixed set of orderable columns, falling back to
//! the primary identifier, and rows are then sorted ascending by that
//! column.
use vstd::prelude::*;

use crate::bytes::{lemma_lex_le_total, lemma_lex_le_trans, lex_le, str_eq};
use crate::user::{clone_user, views, User, UserView};
use vstd::relations::sorted_by;
use vstd::multiset::Multiset;
use vstd::seq_lib::lemma_multiset_commutative;
use vstd::utf8::encode_utf8;

verus! {

/// The orderable columns. `Id` is the default, guaranteeing a stable,
/// reproducible order across pages when no recognized key is supplied.
#[derive(Clone, Copy, PartialEq, Eq, Structural)]
pub enum Column {
    Id,
    Email,
    CreatedAt,
    UpdatedAt,
}

/// Ascending order on the nullable timestamp, rows without the field
/// sorting last.
pub open spec fn opt_time_le(a: Option<i64>, b: Option<i64>) -> bool {
    match (a, b) {
        (Option::None, Option::None) => true,
        (Option::Some(_), Option::None) => true,
        (Option::None, Option::Some(_)) => false,
        (Option::Some(x), Option::Some(y)) => x <= y,
    }
}

/// Ascending order of two rows under one column; the email column orders
/// by the bytes of the address.
pub open spec fn row_le(col: Column, a: UserView, b: UserView) -> bool {
    match col {
        Column::Id => a.id <= b.id,
        Column::Email => lex_le(encode_utf8(a.email), encode_utf8(b.email)),
        Column::CreatedAt => a.created_at <= b.created_at,
        Column::UpdatedAt => opt_time_le(a.updated_at, b.updated_at),
    }
}

pub proof fn lemma_row_le_total(col: Column, a: UserView, b: UserView)
    ensures
        row_le(col, a, b) || row_le(col, b, a),
{
    if col is Email {
        lemma_lex_le_total(encode_utf8(a.email), encode_utf8(b.email));
    }
}

pub proof fn lemma_row_le_trans(col: Column, a: UserView, b: UserView, c: UserView)
    requires
        row_le(col, a, b),
        row_le(col, b, c),
    ensures
        row_le(col, a, c),
{
    if col is Email {
        lemma_lex_le_trans(encode_utf8(a.email), encode_utf8(b.email), encode_utf8(c.email));
    }
}

/// Evaluates the column order on two rows.
pub fn row_le_exec(col: Column, a: &User, b: &User) -> (r: bool)
    ensures
        r == row_le(col, a@, b@),
{
    match col {
        Column::Id => a.id <= b.id,
        Column::Email => crate::bytes::bytes_le(
            a.email.as_str().as_bytes(),
            b.email.as_str().as_bytes(),
        ),
        Column::CreatedAt => a.created_at <= b.created_at,
        Column::UpdatedAt => match (a.updated_at, b.updated_at) {
            (Option::None, Option::None) => true,
            (Option::Some(_), Option::None) => true,
            (Option::None, Option::Some(_)) => false,
            (Option::Some(x), Option::Some(y)) => x <= y,
        },
    }
}

/// The column a requested sort key resolves to: exact match against the
/// declared names, anything else (or no key) falling back to the id.
pub open spec fn spec_sort_column(key: Option<Seq<char>>) -> Column {
    match key {
        Option::Some(s) => if s == "id"@ {
            Column::Id
        } else if s == "email"@ {
            Column::Email
        } else if s == "created_at"@ {
            Column::CreatedAt
        } else if s == "updated_at"@ {
            Column::UpdatedAt
        } else {
            Column::Id
        },
        Option::None => Column::Id,
    }
}

/// Resolves the optional client-supplied key to a column.
pub fn sort_column_of(key: &Option<String>) -> (col: Column)
    ensures
        col == spec_sort_column(
            match *key {
                Some(ref s) => Some(s@),
                None => None::<Seq<char>>,
            },
        ),
{
    match key {
        Some(s) => {
            if str_eq(s.as_str(), "id") {
                Column::Id
            } else if str_eq(s.as_str(), "email") {
                Column::Email
            } else if str_eq(s.as_str(), "created_at") {
                Column::CreatedAt
            } else if str_eq(s.as_str(), "updated_at") {
                Column::UpdatedAt
            } else {
                Column::Id
            }
        },
        None => Column::Id,
    }
}

/// Inserting an element anywhere in a sequence adds exactly it to the
/// multiset of elements.
pub proof fn lemma_insert_multiset(s: Seq<UserView>, p: int, x: UserView)
    requires
        0 <= p <= s.len(),
    ensures
        s.insert(p, x).to_multiset() == s.to_multiset().insert(x),
{
    broadcast use vstd::multiset::group_multiset_axioms;
    broadcast use vstd::seq_lib::group_to_multiset_ensures;

    let t = s.insert(p, x);
    let front = s.take(p);
    let back = s.skip(p);
    assert(t =~= front + (seq![x] + back));
    assert(s =~= front + back);
    lemma_multiset_commutative(front, seq![x] + back);
    lemma_multiset_commutative(seq![x], back);
    lemma_multiset_commutative(front, back);
    assert(seq![x] =~= Seq::<UserView>::empty().push(x));
    assert(Seq::<UserView>::empty().to_multiset() =~= Multiset::<UserView>::empty());
    assert(seq![x].to_multiset() =~= Multiset::<UserView>::empty().insert(x));
    assert(t.to_multiset() =~= s.to_multiset().insert(x));
}

/// Sorts the rows ascending by the given column: the result holds the same
/// rows, ordered by the column.
pub fn sort_rows(rows: &mut Vec<User>, col: Column)
    ensures
        final(rows)@.len() == old(rows)@.len(),
        views(final(rows)@).to_multiset() == views(old(rows)@).to_multiset(),
        sorted_by(views(final(rows)@), (|x: UserView, y: UserView| row_le(col, x, y))),
{
    broadcast use vstd::multiset::group_multiset_axioms;
    broadcast use vstd::seq_lib::group_to_multiset_ensures;

    let ghost leq = (|x: UserView, y: UserView| row_le(col, x, y));
    let ghost orig = views(old(rows)@);
    if rows.len() < 2 {
        return;
    }
    let mut i: usize = 1;
    while i < rows.len()
        invariant
            1 <= i <= rows@.len(),
            rows@.len() == orig.len(),
            views(rows@).to_multiset() == orig.to_multiset(),
            leq == (|x: UserView, y: UserView| row_le(col, x, y)),
            sorted_by(views(rows@).take(i as int), leq),
        decreases rows@.len() - i,
    {
        let ghost s0 = views(rows@);
        let x = rows.remove(i);
        let ghost sr = views(rows@);
        proof {
            assert(sr =~= s0.remove(i as int));
            assert(sr.take(i as int) =~= s0.take(i as int));
            assert(x@ == s0[i as int]);
        }
        let mut p: usize = i;
        let mut placed: bool = false;
        while p > 0 && !placed
            invariant
                p <= i,
                i < s0.len(),
                sr == views(rows@),
                sr.len() == s0.len() - 1,
                rows@.len() == sr.len(),
                leq == (|x2: UserView, y2: UserView| row_le(col, x2, y2)),
                sorted_by(sr.take(i as int), leq),
                forall|k: int| p <= k < i ==> leq(x@, #[trigger] sr[k]),
                placed ==> p >= 1 && leq(sr[p - 1], x@),
            decreases p + (if placed { 0int } else { 1int }),
        {
            let c = row_le_exec(col, &rows[p - 1], &x);
            if c {
                proof {
                    assert(sr[p as int - 1] == rows@[p - 1]@);
                }
                placed = true;
            } else {
                proof {
                    lemma_row_le_total(col, rows@[p - 1]@, x@);
                    assert(sr[p as int - 1] == rows@[p - 1]@);
                    assert(leq(x@, sr[p as int - 1]));
                }
                p = p - 1;
            }
        }
        rows.insert(p, x);
        proof {
            let sn = views(rows@);
            assert(sn =~= sr.insert(p as int, x@));
            lemma_insert_multiset(sr, p as int, x@);
            s0.to_multiset_ensures();
            assert(s0.contains(s0[i as int])) by {
                assert(0 <= i < s0.len() && s0[i as int] == s0[i as int]);
            }
            assert(s0.to_multiset().count(s0[i as int]) > 0);
            assert(s0.remove(i as int).to_multiset() =~= s0.to_multiset().remove(s0[i as int]));
            assert(sr.to_multiset() =~= s0.to_multiset().remove(s0[i as int]));
            assert(sn.to_multiset() =~= s0.to_multiset());
            let pre = sn.take(i as int + 1);
            assert forall|k1: int, k2: int| 0 <= k1 < k2 < i + 1 implies #[trigger] leq(
                pre[k1],
                pre[k2],
            ) by {
                if k2 < p {
                    assert(leq(sr[k1], sr[k2]));
                } else if k2 == p {
                    assert(p >= 1 && leq(sr[p - 1], x@));
                    if k1 < p - 1 {
                        assert(leq(sr[k1], sr[p - 1]));
                        lemma_row_le_trans(col, sr[k1], sr[p - 1], x@);
                    }
                } else if k1 < p {
                    assert(leq(sr[k1], sr[k2 - 1]));
                } else if k1 == p {
                    assert(leq(x@, sr[k2 - 1]));
                } else {
                    assert(leq(sr[k1 - 1], sr[k2 - 1]));
                }
            }
            assert(sorted_by(sn.take(i as int + 1), leq));
        }
        i = i + 1;
    }
    proof {
        let sf = views(rows@);
        assert(sf.take(sf.len() as int) =~= sf);
    }
}

} // verus!
