//! Offset pagination over an already filtered and sorted row set: the page
//! of rows plus the total row and page counts, the counts independent of
//! which page was requested.
use vstd::prelude::*;

use crate::user::{clone_user, views, User, UserView};
use vstd::arithmetic::div_mod::lemma_fundamental_div_mod_converse;

verus! {

/// The page size applied when the request carries none, or a
/// non-positive one.
pub const DEFAULT_PAGE_SIZE: i64 = 10;

/// The page number actually served: absent or non-positive requests mean
/// the first page.
pub open spec fn effective_page(page: Option<i64>) -> int {
    match page {
        Some(p) => if p < 1 {
            1
        } else {
            p as int
        },
        None => 1,
    }
}

/// The page size actually served: absent or non-positive requests mean the
/// default.
pub open spec fn effective_page_size(page_size: Option<i64>) -> int {
    match page_size {
        Some(s) => if s < 1 {
            DEFAULT_PAGE_SIZE as int
        } else {
            s as int
        },
        None => DEFAULT_PAGE_SIZE as int,
    }
}

/// Ceiling division: the number of pages needed to hold `total` rows at
/// `size` rows each; zero exactly when there are no rows.
pub open spec fn spec_total_pages(total: int, size: int) -> int {
    (total + size - 1) / size
}

/// The window of rows a page request selects: rows from offset
/// `(page - 1) * size`, at most `size` of them, empty when the offset is
/// past the end.
pub open spec fn page_slice(s: Seq<UserView>, page: int, size: int) -> Seq<UserView> {
    let offset = (page - 1) * size;
    if offset >= s.len() {
        Seq::<UserView>::empty()
    } else if offset + size > s.len() {
        s.subrange(offset, s.len() as int)
    } else {
        s.subrange(offset, offset + size)
    }
}

/// Ceiling division said multiplicatively: enough pages to cover every
/// row, no page to spare.
pub proof fn lemma_total_pages_bounds(total: int, size: int)
    requires
        0 <= total,
        1 <= size,
    ensures
        spec_total_pages(total, size) >= 0,
        size * spec_total_pages(total, size) >= total,
        total > 0 ==> size * (spec_total_pages(total, size) - 1) < total,
        spec_total_pages(total, size) == 0 <==> total == 0,
    {
    let q = spec_total_pages(total, size);
    vstd::arithmetic::div_mod::lemma_fundamental_div_mod(total + size - 1, size);
    let r = (total + size - 1) % size;
    vstd::arithmetic::div_mod::lemma_mod_bound(total + size - 1, size);
    vstd::arithmetic::div_mod::lemma_div_pos_is_pos(total + size - 1, size);
    assert(total + size - 1 == size * q + r);
    assert(size * (q - 1) == size * q - size) by (nonlinear_arith);
    assert(q == 0 ==> size * q == 0) by (nonlinear_arith);
    assert(total == 0 ==> q <= 0) by {
        if total == 0 && q > 0 {
            assert(q >= 1);
            assert(size * q >= size) by (nonlinear_arith)
                requires
                    q >= 1,
                    size >= 1,
            ;
        }
    }
}

/// Serves one page of an already narrowed and sorted row set, and derives
/// the total row and page counts from the whole set, never from the page.
/// A page past the end is an empty row list with the same counts, not an
/// error.
pub fn paginate(rows: &Vec<User>, page: Option<i64>, page_size: Option<i64>) -> (r: (
    Vec<User>,
    i64,
    i64,
))
    requires
        rows@.len() <= 0x7fff_ffff_ffff_ffff,
    ensures
        views(r.0@) == page_slice(
            views(rows@),
            effective_page(page),
            effective_page_size(page_size),
        ),
        r.1 == spec_total_pages(rows@.len() as int, effective_page_size(page_size)),
        r.2 == rows@.len(),
{
    let ghost vt = views(rows@);
    let total: i64 = rows.len() as i64;
    let size: i64 = match page_size {
        Some(s) => if s < 1 {
            DEFAULT_PAGE_SIZE
        } else {
            s
        },
        None => DEFAULT_PAGE_SIZE,
    };
    let page_n: i64 = match page {
        Some(p) => if p < 1 {
            1
        } else {
            p
        },
        None => 1,
    };
    let total_pages: i64 = if total == 0 {
        0
    } else {
        proof {
            vstd::arithmetic::div_mod::lemma_fundamental_div_mod(total - 1, size as int);
            vstd::arithmetic::div_mod::lemma_mod_bound(total - 1, size as int);
            vstd::arithmetic::div_mod::lemma_div_pos_is_pos(total - 1, size as int);
            let q2 = (total - 1) as int / size as int;
            let r2 = (total - 1) as int % size as int;
            assert(q2 + 1 <= total) by (nonlinear_arith)
                requires
                    size >= 1,
                    q2 >= 0,
                    r2 >= 0,
                    total - 1 == size * q2 + r2,
            ;
        }
        (total - 1) / size + 1
    };
    proof {
        if total == 0 {
            lemma_fundamental_div_mod_converse(total + size - 1, size as int, 0, size - 1);
        } else {
            let q2 = (total - 1) as int / size as int;
            let r2 = (total - 1) as int % size as int;
            vstd::arithmetic::div_mod::lemma_fundamental_div_mod(total - 1, size as int);
            vstd::arithmetic::div_mod::lemma_mod_bound(total - 1, size as int);
            assert(total + size - 1 == size * (q2 + 1) + r2) by (nonlinear_arith)
                requires
                    total - 1 == size * q2 + r2,
            ;
            lemma_fundamental_div_mod_converse(total + size - 1, size as int, q2 + 1, r2);
        }
        assert(total_pages == spec_total_pages(rows@.len() as int, effective_page_size(page_size)));
    }
    let len: usize = rows.len();
    proof {
        assert((page_n as int - 1) * (size as int) <= 0x7fff_ffff_ffff_ffff * 0x7fff_ffff_ffff_ffff)
            by (nonlinear_arith)
            requires
                1 <= page_n <= 0x7fff_ffff_ffff_ffff,
                1 <= size <= 0x7fff_ffff_ffff_ffff,
        ;
        assert((page_n as int - 1) * (size as int) >= 0) by (nonlinear_arith)
            requires
                1 <= page_n,
                1 <= size,
        ;
    }
    let offset_wide: u128 = (page_n as u128 - 1) * (size as u128);
    let ghost offset = (effective_page(page) - 1) * effective_page_size(page_size);
    proof {
        assert(offset_wide == offset);
    }
    if offset_wide >= len as u128 {
        proof {
            assert(page_slice(vt, effective_page(page), effective_page_size(page_size))
                =~= Seq::<UserView>::empty());
        }
        return (Vec::new(), total_pages, total);
    }
    let start: usize = offset_wide as usize;
    let end_wide: u128 = offset_wide + size as u128;
    let end: usize = if end_wide > len as u128 {
        len
    } else {
        end_wide as usize
    };
    let mut out: Vec<User> = Vec::new();
    let mut idx: usize = start;
    proof {
        assert(views(out@) =~= vt.subrange(start as int, start as int));
    }
    while idx < end
        invariant
            vt == views(rows@),
            vt.len() == rows@.len(),
            start <= idx <= end <= rows@.len(),
            views(out@) == vt.subrange(start as int, idx as int),
        decreases end - idx,
    {
        let u = clone_user(&rows[idx]);
        let ghost prev = out@;
        out.push(u);
        proof {
            assert(vt[idx as int] == rows@[idx as int]@);
            assert(views(out@) =~= views(prev).push(vt[idx as int]));
            assert(views(prev).push(vt[idx as int]) =~= vt.subrange(start as int, idx as int + 1));
        }
        idx = idx + 1;
    }
    proof {
        assert(views(out@) == vt.subrange(start as int, end as int));
        assert(vt.subrange(start as int, end as int) =~= page_slice(
            vt,
            effective_page(page),
            effective_page_size(page_size),
        ));
    }
    (out, total_pages, total)
}

} // verus!
