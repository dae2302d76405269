//! Token issuance, the login flow, and the refresh protocol.
//!
//! A refresh token is not rotated or revoked on use: the same one may be
//! replayed until it expires. That is an inherited design limitation of the
//! service, kept as it stands.
use vstd::prelude::*;

use crate::claim::ClaimView;
use crate::claim::NomerClaim;
use crate::codec::sign;
use crate::codec::spec_token;
use crate::codec::token_accepted;
use crate::codec::verify_at;
use crate::error::ApiError;
use crate::identity::LookupOutcome;
use crate::identity::Nomer;
use crate::identity::verify_password;
use crate::outside::argon2_matches;
use crate::outside::now_unix_seconds;
use crate::outside::phc_parses;
use vstd::string::StringSliceAdditionalSpecFns;

verus! {

/// Seconds an access token lives: one hour.
pub const ACCESS_TOKEN_LIFETIME: i64 = 3600;

/// Seconds a refresh token lives: thirty days.
pub const REFRESH_TOKEN_LIFETIME: i64 = 2592000;

/// Whether, at time `now`, every claim the token verifies to under the key
/// is of access kind — in particular when it verifies to none.
pub open spec fn only_access_accepted(token: Seq<u8>, key: Seq<u8>, now: int) -> bool {
    forall|c: ClaimView| token_accepted(token, key, now, c) ==> c.acc
}

/// A token carrying a claim for `email` of the stated kind and lifetime,
/// issued at some clock second.
pub open spec fn minted_token(
    tok: Seq<u8>,
    key: Seq<u8>,
    email: Seq<char>,
    lifetime: int,
    is_access: bool,
) -> bool {
    exists|c: ClaimView|
        {
            &&& c.wf()
            &&& c.sub == email
            &&& c.acc == is_access
            &&& c.exp == c.iat + lifetime
            &&& -9_000_000_000_000 <= c.iat <= 9_000_000_000_000
            &&& tok == #[trigger] spec_token(c, key)
        }
}

/// A minted token verifies only to a claim of the kind, subject and
/// lifetime it was minted with: an access token is an access token wherever
/// it is accepted, and a refresh token a refresh token.
pub proof fn lemma_minted_kind(
    tok: Seq<u8>,
    key: Seq<u8>,
    email: Seq<char>,
    lifetime: int,
    is_access: bool,
    now: int,
    c2: ClaimView,
)
    requires
        minted_token(tok, key, email, lifetime, is_access),
        token_accepted(tok, key, now, c2),
    ensures
        c2.acc == is_access,
        c2.sub == email,
        c2.exp == c2.iat + lifetime,
{
    let c = choose|c: ClaimView|
        {
            &&& c.wf()
            &&& c.sub == email
            &&& c.acc == is_access
            &&& c.exp == c.iat + lifetime
            &&& -9_000_000_000_000 <= c.iat <= 9_000_000_000_000
            &&& tok == #[trigger] spec_token(c, key)
        };
    crate::codec::lemma_token_unique(c, c2, key);
}

impl Nomer {
    /// Mints the short-lived access token for this identity. With a plain
    /// byte key, signing cannot fail, so a token is always produced.
    pub fn make_access_token(&self, key: &[u8]) -> (t: Option<Vec<u8>>)
        ensures
            t matches Some(tok) && minted_token(
                tok@,
                key@,
                self.email@,
                ACCESS_TOKEN_LIFETIME as int,
                true,
            ),
    {
        let claim = NomerClaim::make(self.email.clone(), ACCESS_TOKEN_LIFETIME, true);
        let tok = sign(&claim, key);
        proof {
            assert(tok@ == spec_token(claim@, key@));
        }
        Some(tok)
    }

    /// Mints the long-lived refresh token for this identity.
    pub fn make_refresh_token(&self, key: &[u8]) -> (t: Option<Vec<u8>>)
        ensures
            t matches Some(tok) && minted_token(
                tok@,
                key@,
                self.email@,
                REFRESH_TOKEN_LIFETIME as int,
                false,
            ),
    {
        let claim = NomerClaim::make(self.email.clone(), REFRESH_TOKEN_LIFETIME, false);
        let tok = sign(&claim, key);
        proof {
            assert(tok@ == spec_token(claim@, key@));
        }
        Some(tok)
    }
}

/// The error a login attempt surfaces, if any: an unknown email and a wrong
/// password map to the same status and message, so a caller cannot probe
/// which addresses exist; an unreadable stored hash stays internal.
pub open spec fn spec_login_error(lookup: &LookupOutcome, password: Seq<u8>) -> Option<
    (u16, Seq<char>),
> {
    match lookup {
        LookupOutcome::StoreError => Some((500u16, "Database error"@)),
        LookupOutcome::Missing => Some((401u16, "Invalid email or password"@)),
        LookupOutcome::Found(n) => {
            if !phc_parses(n.password_hash@) {
                Some((500u16, "Password verification failed"@))
            } else if !argon2_matches(password, n.password_hash@) {
                Some((401u16, "Invalid email or password"@))
            } else {
                None
            }
        },
    }
}

/// A login against a missing identity and one against a present identity
/// with a wrong password surface the identical status and message.
pub proof fn lemma_login_uniform_error(n: Nomer, password: Seq<u8>)
    requires
        phc_parses(n.password_hash@),
        !argon2_matches(password, n.password_hash@),
    ensures
        spec_login_error(&LookupOutcome::Found(n), password) == spec_login_error(
            &LookupOutcome::Missing,
            password,
        ),
{
}

/// The login flow: take the identity store's answer for the email, check
/// the password, and mint a fresh access and refresh token pair. No
/// server-side record of the pair is kept.
pub fn login(lookup: LookupOutcome, password: &str, key: &[u8]) -> (r: Result<
    (Vec<u8>, Vec<u8>),
    ApiError,
>)
    ensures
        match spec_login_error(&lookup, password.spec_bytes()) {
            Some(sm) => r matches Err(e) && e.spec_status() == sm.0 && e.spec_message() == sm.1,
            None => {
                &&& r matches Ok(t)
                &&& lookup matches LookupOutcome::Found(n) && minted_token(
                    t.0@,
                    key@,
                    n.email@,
                    ACCESS_TOKEN_LIFETIME as int,
                    true,
                ) && minted_token(t.1@, key@, n.email@, REFRESH_TOKEN_LIFETIME as int, false)
            },
        },
{
    match lookup {
        LookupOutcome::StoreError => Err(ApiError::Internal("Database error")),
        LookupOutcome::Missing => Err(ApiError::InvalidCredentials("Invalid email or password")),
        LookupOutcome::Found(n) => {
            match verify_password(password, n.password_hash.as_str()) {
                None => Err(ApiError::Internal("Password verification failed")),
                Some(false) => Err(ApiError::InvalidCredentials("Invalid email or password")),
                Some(true) => {
                    let access = match n.make_access_token(key) {
                        Some(t) => t,
                        None => {
                            proof {
                                assert(false);
                            }
                            return Err(ApiError::Internal("Failed to create access token"));
                        },
                    };
                    let refresh_tok = match n.make_refresh_token(key) {
                        Some(t) => t,
                        None => {
                            proof {
                                assert(false);
                            }
                            return Err(ApiError::Internal("Failed to create refresh token"));
                        },
                    };
                    Ok((access, refresh_tok))
                },
            }
        },
    }
}

/// The refresh exchange at a fixed time: accept the token only if it
/// verifies and is of refresh kind, then mint an access claim for the same
/// subject issued at `new_iat`.
pub fn refresh_at(key: &[u8], refresh_token: &[u8], now: i64, new_iat: i64) -> (r: Result<
    Vec<u8>,
    ApiError,
>)
    requires
        -9_000_000_000_000 <= new_iat <= 9_000_000_000_000,
    ensures
        match r {
            Ok(tok) => exists|c: ClaimView|
                #![auto]
                {
                    &&& token_accepted(refresh_token@, key@, now as int, c)
                    &&& !c.acc
                    &&& tok@ == spec_token(
                        ClaimView {
                            sub: c.sub,
                            iat: new_iat as int,
                            exp: new_iat + ACCESS_TOKEN_LIFETIME,
                            acc: true,
                        },
                        key@,
                    )
                },
            Err(e) => {
                &&& e.spec_status() == 401
                &&& e.spec_message() == "Invalid refresh token"@
                &&& only_access_accepted(refresh_token@, key@, now as int)
            },
        },
        forall|c: ClaimView|
            token_accepted(refresh_token@, key@, now as int, c) && c.acc ==> r is Err,
{
    let claim = match verify_at(refresh_token, key, now) {
        Some(c) => c,
        None => {
            return Err(ApiError::InvalidToken("Invalid refresh token"));
        },
    };
    if claim.acc {
        return Err(ApiError::InvalidToken("Invalid refresh token"));
    }
    let new_claim = NomerClaim {
        sub: claim.sub,
        iat: new_iat,
        exp: new_iat + ACCESS_TOKEN_LIFETIME,
        acc: true,
    };
    Ok(sign(&new_claim, key))
}

/// The refresh protocol: exchange a valid, unexpired refresh token for a
/// fresh access token for the same subject. An access-kind token is
/// refused. The token handed in stays valid: nothing is rotated.
pub fn refresh(key: &[u8], refresh_token: &[u8]) -> (r: Result<Vec<u8>, ApiError>)
    ensures
        match r {
            Ok(tok) => exists|c: ClaimView, t_now: int|
                #![auto]
                {
                    &&& -9_000_000_000_000 <= t_now <= 9_000_000_000_000
                    &&& token_accepted(refresh_token@, key@, t_now, c)
                    &&& !c.acc
                    &&& tok@ == spec_token(
                        ClaimView {
                            sub: c.sub,
                            iat: t_now,
                            exp: t_now + ACCESS_TOKEN_LIFETIME,
                            acc: true,
                        },
                        key@,
                    )
                },
            Err(e) => {
                &&& e.spec_status() == 401
                &&& e.spec_message() == "Invalid refresh token"@
                &&& exists|t_now: int|
                    #![auto]
                    -9_000_000_000_000 <= t_now <= 9_000_000_000_000 && only_access_accepted(
                        refresh_token@,
                        key@,
                        t_now,
                    )
            },
        },
{
    let now = now_unix_seconds();
    let r = refresh_at(key, refresh_token, now, now);
    proof {
        if r is Err {
            assert(only_access_accepted(refresh_token@, key@, now as int));
        }
    }
    r
}

/// Registration then login: an identity stored under a fresh hash of its
/// password — what `hash_password` promises of every hash it returns —
/// passes the login flow without error, and so receives its token pair.
pub proof fn lemma_register_then_login(n: Nomer, password: Seq<u8>)
    requires
        phc_parses(n.password_hash@),
        argon2_matches(password, n.password_hash@),
    ensures
        spec_login_error(&LookupOutcome::Found(n), password) is None,
{
}

} // verus!
