//! The predicate composer: an ordered list of optional predicates is
//! narrowed onto a query, each present entry adding one conjunctive (AND)
//! condition; absent entries are skipped entirely.
use vstd::prelude::*;

use crate::bytes::{contains_bytes, contains_seq};
use crate::user::{clone_string, clone_user, views, Params, User, UserView};
use vstd::string::StringSliceAdditionalSpecFns;

verus! {

/// One conjunctive condition over the filterable columns: equality and
/// substring match on the email, inclusive range bounds on the two
/// timestamps.
pub enum Predicate {
    EmailEqual(String),
    EmailLike(String),
    CreatedAtGe(i64),
    CreatedAtLe(i64),
    UpdatedAtGe(i64),
    UpdatedAtLe(i64),
}

/// The mathematical image of a predicate: patterns become character
/// sequences.
pub enum PredicateView {
    EmailEqual(Seq<char>),
    EmailLike(Seq<char>),
    CreatedAtGe(i64),
    CreatedAtLe(i64),
    UpdatedAtGe(i64),
    UpdatedAtLe(i64),
}

impl View for Predicate {
    type V = PredicateView;

    open spec fn view(&self) -> PredicateView {
        match *self {
            Predicate::EmailEqual(ref s) => PredicateView::EmailEqual(s@),
            Predicate::EmailLike(ref s) => PredicateView::EmailLike(s@),
            Predicate::CreatedAtGe(t) => PredicateView::CreatedAtGe(t),
            Predicate::CreatedAtLe(t) => PredicateView::CreatedAtLe(t),
            Predicate::UpdatedAtGe(t) => PredicateView::UpdatedAtGe(t),
            Predicate::UpdatedAtLe(t) => PredicateView::UpdatedAtLe(t),
        }
    }
}

/// The views of a predicate list, in order.
pub open spec fn pred_views(s: Seq<Predicate>) -> Seq<PredicateView> {
    s.map_values(|p: Predicate| p@)
}

/// The views of an ordered list of optional predicates.
pub open spec fn opt_pred_views(s: Seq<Option<Predicate>>) -> Seq<Option<PredicateView>> {
    s.map_values(
        |f: Option<Predicate>|
            match f {
                Some(p) => Some(p@),
                None => None::<PredicateView>,
            },
    )
}

/// A query being narrowed: the base row set with the predicates appended so
/// far, AND-combined.
pub struct Query {
    pub predicates: Vec<Predicate>,
}

/// Whether a row satisfies one predicate. The substring match compares the
/// UTF-8 bytes of the row's email with those of the pattern, both sides
/// implicitly wildcarded; a range bound on the nullable `updated_at` is
/// never met by a row in which that field is absent.
pub open spec fn pred_holds(u: UserView, p: PredicateView) -> bool {
    match p {
        PredicateView::EmailEqual(s) => u.email == s,
        PredicateView::EmailLike(s) => contains_seq(
            vstd::utf8::encode_utf8(u.email),
            vstd::utf8::encode_utf8(s),
        ),
        PredicateView::CreatedAtGe(t) => u.created_at >= t,
        PredicateView::CreatedAtLe(t) => u.created_at <= t,
        PredicateView::UpdatedAtGe(t) => u.updated_at matches Some(x) && x >= t,
        PredicateView::UpdatedAtLe(t) => u.updated_at matches Some(x) && x <= t,
    }
}

/// Whether a row satisfies every predicate of a list: the conjunctive
/// semantics of a narrowed query.
pub open spec fn query_matches(u: UserView, preds: Seq<PredicateView>) -> bool {
    forall|i: int| 0 <= i < preds.len() ==> pred_holds(u, #[trigger] preds[i])
}

/// The predicates present in an ordered list of optional entries, kept in
/// order.
pub open spec fn present_predicates(fs: Seq<Option<PredicateView>>) -> Seq<PredicateView>
    decreases fs.len(),
{
    if fs.len() == 0 {
        Seq::<PredicateView>::empty()
    } else {
        let rest = present_predicates(fs.drop_last());
        match fs.last() {
            Some(p) => rest.push(p),
            None => rest,
        }
    }
}

/// A field-for-field copy of a predicate.
pub fn clone_predicate(p: &Predicate) -> (r: Predicate)
    ensures
        r@ == p@,
{
    match p {
        Predicate::EmailEqual(s) => Predicate::EmailEqual(clone_string(s)),
        Predicate::EmailLike(s) => Predicate::EmailLike(clone_string(s)),
        Predicate::CreatedAtGe(t) => Predicate::CreatedAtGe(*t),
        Predicate::CreatedAtLe(t) => Predicate::CreatedAtLe(*t),
        Predicate::UpdatedAtGe(t) => Predicate::UpdatedAtGe(*t),
        Predicate::UpdatedAtLe(t) => Predicate::UpdatedAtLe(*t),
    }
}

impl Query {
    /// The unnarrowed base query: every row matches.
    pub fn base() -> (q: Query)
        ensures
            q.predicates@.len() == 0,
    {
        Query { predicates: Vec::new() }
    }

    /// Appends each present entry to the query's conjunctive filter set,
    /// skipping absent ones; composition is strictly additive (no predicate
    /// is ever removed).
    pub fn narrow(self, filters: &Vec<Option<Predicate>>) -> (q: Query)
        ensures
            pred_views(q.predicates@) == pred_views(self.predicates@) + present_predicates(
                opt_pred_views(filters@),
            ),
    {
        let ghost base = pred_views(self.predicates@);
        let ghost fviews = opt_pred_views(filters@);
        let mut q = self;
        let mut i: usize = 0;
        proof {
            assert(fviews.take(0) =~= Seq::<Option<PredicateView>>::empty());
            assert(pred_views(q.predicates@) =~= base + present_predicates(fviews.take(0)));
        }
        while i < filters.len()
            invariant
                fviews == opt_pred_views(filters@),
                fviews.len() == filters@.len(),
                i <= filters@.len(),
                pred_views(q.predicates@) == base + present_predicates(fviews.take(i as int)),
            decreases filters@.len() - i,
        {
            proof {
                assert(fviews.take(i as int + 1).drop_last() =~= fviews.take(i as int));
                assert(fviews.take(i as int + 1).last() == fviews[i as int]);
            }
            match &filters[i] {
                Some(p) => {
                    proof {
                        assert(filters@[i as int] == Some(*p));
                        assert(fviews[i as int] == Some(p@));
                    }
                    let c = clone_predicate(p);
                    let ghost before_preds = q.predicates@;
                    q.predicates.push(c);
                    proof {
                        assert(pred_views(q.predicates@) =~= pred_views(before_preds).push(p@));
                        assert(fviews.take(i as int + 1).len() == i + 1);
                        assert(present_predicates(fviews.take(i as int + 1))
                            == present_predicates(fviews.take(i as int)).push(p@));
                        assert(pred_views(q.predicates@) =~= base + present_predicates(
                            fviews.take(i as int + 1),
                        ));
                    }
                },
                None => {
                    proof {
                        assert(filters@[i as int] is None);
                        assert(fviews[i as int] is None);
                        assert(pred_views(q.predicates@) =~= base + present_predicates(
                            fviews.take(i as int + 1),
                        ));
                    }
                },
            }
            i = i + 1;
        }
        proof {
            assert(fviews.take(fviews.len() as int) =~= fviews);
        }
        q
    }

    /// Runs the narrowed query against a table snapshot: exactly the rows
    /// satisfying every predicate, in table order.
    pub fn run(&self, table: &Vec<User>) -> (rows: Vec<User>)
        ensures
            views(rows@) == views(table@).filter(
                (|u: UserView| query_matches(u, pred_views(self.predicates@))),
            ),
    {
        let ghost vt = views(table@);
        let ghost pred = (|u: UserView| query_matches(u, pred_views(self.predicates@)));
        let mut rows: Vec<User> = Vec::new();
        let mut i: usize = 0;
        proof {
            assert(vt.take(0) =~= Seq::<UserView>::empty());
            reveal_with_fuel(Seq::filter, 2);
            assert(views(rows@) =~= vt.take(0).filter(pred));
        }
        while i < table.len()
            invariant
                vt == views(table@),
                vt.len() == table@.len(),
                i <= table@.len(),
                pred == (|u: UserView| query_matches(u, pred_views(self.predicates@))),
                views(rows@) == vt.take(i as int).filter(pred),
            decreases table@.len() - i,
        {
            proof {
                reveal_with_fuel(Seq::filter, 2);
                assert(vt.take(i as int + 1).drop_last() =~= vt.take(i as int));
                assert(vt.take(i as int + 1).last() == vt[i as int]);
            }
            if row_matches_query(&table[i], self) {
                let u = clone_user(&table[i]);
                rows.push(u);
                proof {
                    assert(views(rows@) =~= vt.take(i as int).filter(pred).push(vt[i as int]));
                }
            }
            i = i + 1;
        }
        proof {
            assert(vt.take(vt.len() as int) =~= vt);
        }
        rows
    }
}

/// Evaluates one predicate against a row.
pub fn eval_predicate(u: &User, p: &Predicate) -> (r: bool)
    ensures
        r == pred_holds(u@, p@),
{
    match p {
        Predicate::EmailEqual(s) => u.email == *s,
        Predicate::EmailLike(s) => contains_bytes(
            u.email.as_str().as_bytes(),
            s.as_str().as_bytes(),
        ),
        Predicate::CreatedAtGe(t) => u.created_at >= *t,
        Predicate::CreatedAtLe(t) => u.created_at <= *t,
        Predicate::UpdatedAtGe(t) => match u.updated_at {
            Some(x) => x >= *t,
            None => false,
        },
        Predicate::UpdatedAtLe(t) => match u.updated_at {
            Some(x) => x <= *t,
            None => false,
        },
    }
}

/// Evaluates the whole conjunction against a row.
pub fn row_matches_query(u: &User, q: &Query) -> (r: bool)
    ensures
        r == query_matches(u@, pred_views(q.predicates@)),
{
    let mut i: usize = 0;
    while i < q.predicates.len()
        invariant
            i <= q.predicates@.len(),
            forall|j: int| 0 <= j < i ==> pred_holds(u@, #[trigger] pred_views(q.predicates@)[j]),
        decreases q.predicates@.len() - i,
    {
        let ok = eval_predicate(u, &q.predicates[i]);
        proof {
            assert(pred_views(q.predicates@)[i as int] == q.predicates@[i as int]@);
        }
        if !ok {
            assert(!pred_holds(u@, pred_views(q.predicates@)[i as int]));
            return false;
        }
        i = i + 1;
    }
    true
}

/// The ordered filter list a listing request narrows with, as a function of
/// the request's view: substring match on the email, then the four
/// inclusive timestamp bounds, each present exactly when the field is.
pub open spec fn param_filter_views(p: Params) -> Seq<Option<PredicateView>> {
    seq![
        match p.email {
            Some(s) => Some(PredicateView::EmailLike(s@)),
            None => None::<PredicateView>,
        },
        match p.created_at_gte {
            Some(t) => Some(PredicateView::CreatedAtGe(t)),
            None => None::<PredicateView>,
        },
        match p.created_at_lte {
            Some(t) => Some(PredicateView::CreatedAtLe(t)),
            None => None::<PredicateView>,
        },
        match p.updated_at_gte {
            Some(t) => Some(PredicateView::UpdatedAtGe(t)),
            None => None::<PredicateView>,
        },
        match p.updated_at_lte {
            Some(t) => Some(PredicateView::UpdatedAtLe(t)),
            None => None::<PredicateView>,
        },
    ]
}

/// Builds that filter list from a request.
pub fn filters_of_params(params: &Params) -> (fs: Vec<Option<Predicate>>)
    ensures
        opt_pred_views(fs@) == param_filter_views(*params),
{
    let mut fs: Vec<Option<Predicate>> = Vec::new();
    match &params.email {
        Some(s) => fs.push(Some(Predicate::EmailLike(clone_string(s)))),
        None => fs.push(None),
    }
    match params.created_at_gte {
        Some(t) => fs.push(Some(Predicate::CreatedAtGe(t))),
        None => fs.push(None),
    }
    match params.created_at_lte {
        Some(t) => fs.push(Some(Predicate::CreatedAtLe(t))),
        None => fs.push(None),
    }
    match params.updated_at_gte {
        Some(t) => fs.push(Some(Predicate::UpdatedAtGe(t))),
        None => fs.push(None),
    }
    match params.updated_at_lte {
        Some(t) => fs.push(Some(Predicate::UpdatedAtLe(t))),
        None => fs.push(None),
    }
    proof {
        assert(opt_pred_views(fs@) =~= param_filter_views(*params));
    }
    fs
}

} // verus!
