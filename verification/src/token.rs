//! The verification-token lifecycle: issue a random identifier bound to an
//! email and an expiry instant, resolve it later from its transport
//! encoding, and validate it against a registration request.
use vstd::prelude::*;

use crate::encoding::{hex_decode, hex_encode, hex_of, hex_parse, valid_hex};
use crate::error::ApiError;
use crate::user::clone_string;

verus! {

/// How many random bytes make a token identifier.
pub const TOKEN_ID_BYTES: usize = 32;

/// How long a token stays valid after issuance, in seconds.
pub const TOKEN_VALIDITY_SECONDS: i64 = 3600;

/// One persisted verification token: a random identifier bound to the
/// email it may register, valid from issuance until its expiry instant.
#[derive(Debug)]
pub struct TokenRecord {
    pub id: Vec<u8>,
    pub email: String,
    pub issued_at: i64,
    pub expires_at: i64,
}

/// The mathematical image of a token record.
pub struct TokenView {
    pub id: Seq<u8>,
    pub email: Seq<char>,
    pub issued_at: i64,
    pub expires_at: i64,
}

impl View for TokenRecord {
    type V = TokenView;

    open spec fn view(&self) -> TokenView {
        TokenView {
            id: self.id@,
            email: self.email@,
            issued_at: self.issued_at,
            expires_at: self.expires_at,
        }
    }
}

/// The views of a token table, in row order.
pub open spec fn token_views(s: Seq<TokenRecord>) -> Seq<TokenView> {
    s.map_values(|t: TokenRecord| t@)
}

/// The first token with the given identifier, if any.
pub open spec fn find_token(tokens: Seq<TokenView>, id: Seq<u8>) -> Option<TokenView>
    decreases tokens.len(),
{
    if tokens.len() == 0 {
        None::<TokenView>
    } else if tokens[0].id == id {
        Some(tokens[0])
    } else {
        find_token(tokens.drop_first(), id)
    }
}

impl TokenRecord {
    /// Issues a fresh token for an email at the given instant: a random
    /// identifier, valid for the fixed window. The caller persists it.
    pub fn issue(email: String, now: i64) -> (t: TokenRecord)
        requires
            now <= 0x7fff_ffff_ffff_ffff - TOKEN_VALIDITY_SECONDS,
        ensures
            t@.email == email@,
            t@.issued_at == now,
            t@.expires_at == now + TOKEN_VALIDITY_SECONDS,
            t@.id.len() == TOKEN_ID_BYTES,
    {
        let id = crate::credential::fresh_random_bytes(TOKEN_ID_BYTES);
        TokenRecord { id, email, issued_at: now, expires_at: now + TOKEN_VALIDITY_SECONDS }
    }

    /// The identifier as it travels on the wire: lowercase hex.
    pub fn encoded_id(&self) -> (r: String)
        ensures
            r@ == hex_of(self.id@),
    {
        hex_encode(self.id.as_slice())
    }

    /// A field-for-field copy of a token record.
    pub fn clone_record(&self) -> (r: TokenRecord)
        ensures
            r@ == self@,
    {
        let mut id: Vec<u8> = Vec::new();
        let mut i: usize = 0;
        while i < self.id.len()
            invariant
                i <= self.id@.len(),
                id@ == self.id@.take(i as int),
            decreases self.id@.len() - i,
        {
            id.push(self.id[i]);
            proof {
                assert(id@ =~= self.id@.take(i as int + 1));
            }
            i = i + 1;
        }
        proof {
            assert(self.id@.take(self.id@.len() as int) =~= self.id@);
        }
        TokenRecord {
            id,
            email: clone_string(&self.email),
            issued_at: self.issued_at,
            expires_at: self.expires_at,
        }
    }

    /// Resolves a transport-encoded identifier against the persisted
    /// tokens: a malformed encoding and an unknown identifier both come
    /// back as `InvalidToken`, deliberately indistinguishable to the
    /// caller.
    pub fn resolve(tokens: &Vec<TokenRecord>, encoded: &str) -> (r: Result<TokenRecord, ApiError>)
        ensures
            match r {
                Ok(t) => valid_hex(encoded@) && find_token(token_views(tokens@), hex_parse(encoded@))
                    == Some(t@),
                Err(e) => e == ApiError::InvalidToken && (!valid_hex(encoded@) || find_token(
                    token_views(tokens@),
                    hex_parse(encoded@),
                ) is None),
            },
    {
        let id = match hex_decode(encoded) {
            Ok(b) => b,
            Err(_) => {
                return Err(ApiError::InvalidToken);
            },
        };
        let ghost vt = token_views(tokens@);
        proof {
            assert(vt.skip(0) =~= vt);
        }
        let mut i: usize = 0;
        while i < tokens.len()
            invariant
                vt == token_views(tokens@),
                vt.len() == tokens@.len(),
                i <= tokens@.len(),
                id@ == hex_parse(encoded@),
                valid_hex(encoded@),
                find_token(vt, id@) == find_token(vt.skip(i as int), id@),
            decreases tokens@.len() - i,
        {
            proof {
                assert(vt.skip(i as int)[0] == vt[i as int]);
                assert(vt.skip(i as int).drop_first() =~= vt.skip(i as int + 1));
            }
            if crate::bytes::bytes_eq(tokens[i].id.as_slice(), id.as_slice()) {
                proof {
                    assert(vt[i as int] == tokens@[i as int]@);
                    assert(vt[i as int].id == id@);
                    assert(find_token(vt.skip(i as int), id@) == Some(vt[i as int]));
                }
                let t = tokens[i].clone_record();
                proof {
                    assert(t@ == vt[i as int]);
                    assert(find_token(token_views(tokens@), hex_parse(encoded@)) == Some(t@));
                    assert(valid_hex(encoded@));
                }
                return Ok(t);
            }
            i = i + 1;
        }
        proof {
            assert(vt.skip(i as int).len() == 0);
        }
        Err(ApiError::InvalidToken)
    }

    /// The policy check the registration flow applies to a resolved token:
    /// the bound email must equal the request's, else `InvalidToken`; an
    /// email-matched token at or past its expiry instant is
    /// `TokenExpired`; otherwise the token authorizes the registration.
    pub fn validate_for(&self, email: &String, now: i64) -> (r: Result<(), ApiError>)
        ensures
            match r {
                Ok(()) => self@.email == email@ && now < self@.expires_at,
                Err(e) => (e == ApiError::InvalidToken && self@.email != email@) || (e
                    == ApiError::TokenExpired && self@.email == email@ && now
                    >= self@.expires_at),
            },
    {
        if !crate::bytes::str_eq(self.email.as_str(), email.as_str()) {
            return Err(ApiError::InvalidToken);
        }
        if self.expires_at <= now {
            return Err(ApiError::TokenExpired);
        }
        Ok(())
    }
}

} // verus!
