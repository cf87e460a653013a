//! The account row and the request shapes that operate on it. Timestamps
//! are seconds relative to the epoch; identifiers are the 128-bit value of
//! the stored UUID.
use vstd::prelude::*;

use crate::error::ApiError;
use crate::paginate::{
    effective_page, effective_page_size, page_slice, paginate, spec_total_pages,
};
use crate::query::{
    filters_of_params, param_filter_views, pred_views, present_predicates, query_matches, Query,
};
use crate::sort::{row_le, sort_column_of, sort_rows, spec_sort_column, Column};
use vstd::relations::sorted_by;
use crate::credential::{
    argon2_encoded_of, argon2_parseable_of, argon2_verify_of, hash_password_string,
    verify_password_string, SALT_BYTES,
};
use vstd::utf8::encode_utf8;

verus! {

/// One account row. `password` holds the encoded hash, never the
/// plaintext, once the row has been through `User::create`.
#[derive(Debug)]
pub struct User {
    pub id: u128,
    pub email: String,
    pub password: String,
    pub created_at: i64,
    pub updated_at: Option<i64>,
}

/// The mathematical image of a row: strings become character sequences.
pub struct UserView {
    pub id: u128,
    pub email: Seq<char>,
    pub password: Seq<char>,
    pub created_at: i64,
    pub updated_at: Option<i64>,
}

impl View for User {
    type V = UserView;

    open spec fn view(&self) -> UserView {
        UserView {
            id: self.id,
            email: self.email@,
            password: self.password@,
            created_at: self.created_at,
            updated_at: self.updated_at,
        }
    }
}

/// The views of a whole table, in row order.
pub open spec fn views(s: Seq<User>) -> Seq<UserView> {
    s.map_values(|u: User| u@)
}

/// The writable fields of an account, as carried by create and update
/// requests; `password` is plaintext here.
pub struct UserMessage {
    pub email: String,
    pub password: String,
}

/// Optional listing parameters: a filter set, a sort key, and a page
/// request. Absent fields impose no constraint.
pub struct Params {
    pub email: Option<String>,
    pub sort_by: Option<String>,
    pub created_at_gte: Option<i64>,
    pub created_at_lte: Option<i64>,
    pub updated_at_gte: Option<i64>,
    pub updated_at_lte: Option<i64>,
    pub page: Option<i64>,
    pub page_size: Option<i64>,
}

/// No two rows share an id: the well-formedness the persistence layer
/// guarantees of any table snapshot.
pub open spec fn ids_unique(table: Seq<UserView>) -> bool {
    forall|i: int, j: int| 0 <= i < j < table.len() ==> table[i].id != table[j].id
}

/// The first row with the given id, if any.
pub open spec fn find_by_id(table: Seq<UserView>, id: u128) -> Option<UserView>
    decreases table.len(),
{
    if table.len() == 0 {
        None::<UserView>
    } else if table[0].id == id {
        Some(table[0])
    } else {
        find_by_id(table.drop_first(), id)
    }
}

/// The first row with the given email, if any.
pub open spec fn spec_find_by_email(table: Seq<UserView>, email: Seq<char>) -> Option<UserView>
    decreases table.len(),
{
    if table.len() == 0 {
        None::<UserView>
    } else if table[0].email == email {
        Some(table[0])
    } else {
        spec_find_by_email(table.drop_first(), email)
    }
}

impl User {
    /// Single-row read by id; `NotFound` exactly when no row carries the id.
    pub fn find(table: &Vec<User>, id: u128) -> (r: Result<User, ApiError>)
        ensures
            match r {
                Ok(u) => find_by_id(views(table@), id) == Some(u@),
                Err(e) => e == ApiError::NotFound && find_by_id(views(table@), id) is None,
            },
    {
        let ghost vt = views(table@);
        proof {
            assert(vt.skip(0) =~= vt);
        }
        let mut i: usize = 0;
        while i < table.len()
            invariant
                vt == views(table@),
                vt.len() == table@.len(),
                i <= table@.len(),
                find_by_id(vt, id) == find_by_id(vt.skip(i as int), id),
            decreases table@.len() - i,
        {
            proof {
                assert(vt.skip(i as int)[0] == vt[i as int]);
                assert(vt.skip(i as int).drop_first() =~= vt.skip(i as int + 1));
            }
            if table[i].id == id {
                return Ok(clone_user(&table[i]));
            }
            i = i + 1;
        }
        proof {
            assert(vt.skip(i as int).len() == 0);
        }
        Err(ApiError::NotFound)
    }

    /// Single-row read by email; `NotFound` exactly when no row carries it.
    pub fn find_by_email(table: &Vec<User>, email: &String) -> (r: Result<User, ApiError>)
        ensures
            match r {
                Ok(u) => spec_find_by_email(views(table@), email@) == Some(u@),
                Err(e) => e == ApiError::NotFound && spec_find_by_email(views(table@), email@)
                    is None,
            },
    {
        let ghost vt = views(table@);
        proof {
            assert(vt.skip(0) =~= vt);
        }
        let mut i: usize = 0;
        while i < table.len()
            invariant
                vt == views(table@),
                vt.len() == table@.len(),
                i <= table@.len(),
                spec_find_by_email(vt, email@) == spec_find_by_email(vt.skip(i as int), email@),
            decreases table@.len() - i,
        {
            proof {
                assert(vt.skip(i as int)[0] == vt[i as int]);
                assert(vt.skip(i as int).drop_first() =~= vt.skip(i as int + 1));
            }
            if table[i].email == *email {
                return Ok(clone_user(&table[i]));
            }
            i = i + 1;
        }
        proof {
            assert(vt.skip(i as int).len() == 0);
        }
        Err(ApiError::NotFound)
    }

    /// The listing engine: narrows the table by the present filters,
    /// orders it by the resolved sort column, and serves the requested
    /// page together with the total row and page counts of the whole
    /// filtered set.
    pub fn find_all(table: &Vec<User>, params: Params) -> (r: Result<
        (Vec<User>, i64, i64),
        ApiError,
    >)
        requires
            table@.len() <= 0x7fff_ffff_ffff_ffff,
        ensures
            r matches Ok(t) && find_all_post(views(table@), params, views(t.0@), t.1 as int, t.2 as int),
    {
        let ghost vt = views(table@);
        let filters = filters_of_params(&params);
        let q = Query::base().narrow(&filters);
        proof {
            assert(pred_views(q.predicates@) =~= present_predicates(param_filter_views(params)));
        }
        let mut rows = q.run(table);
        proof {
            assert(views(rows@) == matching_rows(vt, params));
            vt.lemma_filter_len(
                (|u: UserView| query_matches(u, present_predicates(param_filter_views(params)))),
            );
            assert(views(rows@).len() == rows@.len());
        }
        let col = sort_column_of(&params.sort_by);
        sort_rows(&mut rows, col);
        let ghost sorted = views(rows@);
        let page_rows = paginate(&rows, params.page, params.page_size);
        proof {
            assert(sorted.to_multiset() == matching_rows(vt, params).to_multiset());
            sorted.to_multiset_ensures();
            matching_rows(vt, params).to_multiset_ensures();
            assert(sorted.len() == matching_rows(vt, params).len());
            assert(find_all_post(
                vt,
                params,
                views(page_rows.0@),
                page_rows.1 as int,
                page_rows.2 as int,
            ));
        }
        Ok(page_rows)
    }

    /// Replaces the plaintext in `password` with its encoded hash: the
    /// argon2 encoding of the plaintext under a fresh random salt, which
    /// verifies against that plaintext; every other field is untouched.
    pub fn hash_password(&mut self) -> (r: Result<(), ApiError>)
        requires
            encode_utf8(old(self)@.password).len() <= 0xffff_ffff,
        ensures
            r is Ok,
            final(self)@.id == old(self)@.id,
            final(self)@.email == old(self)@.email,
            final(self)@.created_at == old(self)@.created_at,
            final(self)@.updated_at == old(self)@.updated_at,
            exists|salt: Seq<u8>|
                salt.len() == SALT_BYTES && final(self)@.password == #[trigger] argon2_encoded_of(
                    encode_utf8(old(self)@.password),
                    salt,
                ),
            argon2_parseable_of(final(self)@.password),
            argon2_verify_of(final(self)@.password, encode_utf8(old(self)@.password)),
    {
        let hashed = hash_password_string(&self.password);
        self.password = hashed;
        Ok(())
    }

    /// Whether the supplied plaintext matches this row's encoded hash; an
    /// unparseable hash is a fatal error, not a mismatch, and an answer is
    /// owed exactly when the hash parses and the plaintext is within
    /// argon2's length bound.
    pub fn verify_password(&self, password: &[u8]) -> (r: Result<bool, ApiError>)
        ensures
            r is Ok <==> (argon2_parseable_of(self@.password) && password@.len() <= 0xffff_ffff),
            match r {
                Ok(b) => b == argon2_verify_of(self@.password, password@),
                Err(e) => e == ApiError::HashingFailure,
            },
    {
        verify_password_string(&self.password, password)
    }

    /// Builds and hashes a fresh account row from a creation request: a
    /// random identifier, the request's email, the argon2 encoding of its
    /// password under a fresh salt, created now and never yet updated.
    /// The caller persists the row.
    pub fn create(message: UserMessage, now: i64) -> (r: Result<User, ApiError>)
        requires
            encode_utf8(message.password@).len() <= 0xffff_ffff,
        ensures
            r matches Ok(u) && u@.email == message.email@ && u@.created_at == now && u@.updated_at
                is None && (exists|salt: Seq<u8>|
                salt.len() == SALT_BYTES && u@.password == #[trigger] argon2_encoded_of(
                    encode_utf8(message.password@),
                    salt,
                )) && argon2_parseable_of(u@.password) && argon2_verify_of(
                u@.password,
                encode_utf8(message.password@),
            ),
    {
        let mut user = User {
            id: fresh_user_id(),
            email: message.email,
            password: message.password,
            created_at: now,
            updated_at: None,
        };
        match user.hash_password() {
            Ok(()) => Ok(user),
            Err(e) => Err(e),
        }
    }

    /// Overwrites the writable fields of the row with the given id and
    /// stamps it updated now; `NotFound` exactly when no row carries the
    /// id. The stored password is replaced by the message's as given.
    pub fn update(table: &mut Vec<User>, id: u128, message: UserMessage, now: i64) -> (r: Result<
        User,
        ApiError,
    >)
        ensures
            match r {
                Ok(u) => {
                    &&& find_by_id(views(old(table)@), id) is Some
                    &&& u.id == id
                    &&& u@.email == message.email@
                    &&& u@.password == message.password@
                    &&& u@.created_at == find_by_id(views(old(table)@), id).unwrap().created_at
                    &&& u@.updated_at == Some(now)
                    &&& exists|i: int|
                        0 <= i < old(table)@.len() && views(old(table)@)[i].id == id && views(
                            final(table)@,
                        ) == views(old(table)@).update(i, u@)
                },
                Err(e) => e == ApiError::NotFound && find_by_id(views(old(table)@), id) is None
                    && final(table)@ == old(table)@,
            },
    {
        let ghost vt = views(table@);
        proof {
            assert(vt.skip(0) =~= vt);
        }
        let mut i: usize = 0;
        while i < table.len()
            invariant
                table@ == old(table)@,
                vt == views(table@),
                vt.len() == table@.len(),
                i <= table@.len(),
                find_by_id(vt, id) == find_by_id(vt.skip(i as int), id),
                forall|j: int| 0 <= j < i ==> vt[j].id != id,
            decreases table@.len() - i,
        {
            proof {
                assert(vt.skip(i as int)[0] == vt[i as int]);
                assert(vt.skip(i as int).drop_first() =~= vt.skip(i as int + 1));
            }
            if table[i].id == id {
                let old_row = table.remove(i);
                let updated = User {
                    id,
                    email: message.email,
                    password: message.password,
                    created_at: old_row.created_at,
                    updated_at: Some(now),
                };
                let result = clone_user(&updated);
                table.insert(i, updated);
                proof {
                    assert(find_by_id(vt.skip(i as int), id) == Some(vt[i as int]));
                    assert(views(table@) =~= vt.update(i as int, result@));
                }
                return Ok(result);
            }
            i = i + 1;
        }
        proof {
            assert(vt.skip(i as int).len() == 0);
        }
        Err(ApiError::NotFound)
    }

    /// Deletes every row with the given id and reports how many went.
    pub fn delete(table: &mut Vec<User>, id: u128) -> (r: Result<usize, ApiError>)
        ensures
            r matches Ok(n) && views(final(table)@) == views(old(table)@).filter(
                (|u: UserView| u.id != id),
            ) && n == old(table)@.len() - final(table)@.len(),
    {
        let ghost orig = views(old(table)@);
        let ghost keep = (|u: UserView| u.id != id);
        let before = table.len();
        let mut kept: Vec<User> = Vec::new();
        let mut i: usize = 0;
        while i < table.len()
            invariant
                orig == views(table@),
                orig.len() == table@.len(),
                i <= table@.len(),
                keep == (|u: UserView| u.id != id),
                views(kept@) == orig.take(i as int).filter(keep),
            decreases table@.len() - i,
        {
            proof {
                reveal_with_fuel(Seq::filter, 2);
                assert(orig.take(i as int + 1).drop_last() =~= orig.take(i as int));
                assert(orig.take(i as int + 1).last() == orig[i as int]);
            }
            if table[i].id != id {
                let u = clone_user(&table[i]);
                kept.push(u);
                proof {
                    assert(views(kept@) =~= orig.take(i as int).filter(keep).push(
                        orig[i as int],
                    ));
                }
            }
            i = i + 1;
        }
        proof {
            assert(orig.take(orig.len() as int) =~= orig);
        }
        let after = kept.len();
        *table = kept;
        proof {
            orig.lemma_filter_len(keep);
        }
        Ok(before - after)
    }
}

/// The sort key carried by a listing request, as a character sequence.
pub open spec fn params_sort_key(params: Params) -> Option<Seq<char>> {
    match params.sort_by {
        Some(s) => Some(s@),
        None => None::<Seq<char>>,
    }
}

/// The rows of a table that satisfy every present filter of a listing
/// request, in table order.
pub open spec fn matching_rows(table: Seq<UserView>, params: Params) -> Seq<UserView> {
    table.filter(
        (|u: UserView| query_matches(u, present_predicates(param_filter_views(params)))),
    )
}

/// What a listing returns: the total row count of the filtered set, the
/// page count derived from it by ceiling division, and one page cut from
/// some ordering of the filtered set that is sorted by the resolved
/// column. Both counts are independent of the requested page.
pub open spec fn find_all_post(
    table: Seq<UserView>,
    params: Params,
    rows: Seq<UserView>,
    total_pages: int,
    total: int,
) -> bool {
    let filtered = matching_rows(table, params);
    let col = spec_sort_column(params_sort_key(params));
    &&& total == filtered.len()
    &&& total_pages == spec_total_pages(filtered.len() as int, effective_page_size(params.page_size))
    &&& exists|sorted: Seq<UserView>|
        {
            &&& #[trigger] sorted.to_multiset() == filtered.to_multiset()
            &&& sorted_by(sorted, (|x: UserView, y: UserView| row_le(col, x, y)))
            &&& rows == page_slice(
                sorted,
                effective_page(params.page),
                effective_page_size(params.page_size),
            )
        }
}

/// Relies on uuid::Uuid::new_v4 for a fresh random account identifier;
/// nothing is assumed of the value drawn.
#[verifier::external_body]
fn fresh_user_id() -> (r: u128) {
    uuid::Uuid::new_v4().as_u128()
}

/// A field-for-field copy of a row (`String` carries no `Copy`).
pub fn clone_user(u: &User) -> (r: User)
    ensures
        r@ == u@,
{
    let email = clone_string(&u.email);
    let password = clone_string(&u.password);
    User { id: u.id, email, password, created_at: u.created_at, updated_at: u.updated_at }
}

/// A copy of a string with the same characters.
pub fn clone_string(s: &String) -> (r: String)
    ensures
        r@ == s@,
{
    s.as_str().to_owned()
}

} // verus!
