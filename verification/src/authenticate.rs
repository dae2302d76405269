//! The per-request authenticator: a two-stage pure pipeline from the
//! bearer-credential header to a verified claim, and from the claim's
//! subject to the resolved principal. No state is kept between requests.
use vstd::prelude::*;

use crate::claim::ClaimView;
use crate::claim::NomerClaim;
use crate::codec::token_accepted;
use crate::codec::verify_at;
use crate::error::ApiError;
use crate::identity::LookupOutcome;
use crate::identity::Nomer;

verus! {

/// The designated credential header as the transport saw it: absent, present
/// but not readable as text, or its byte value.
pub enum CredentialHeader {
    Missing,
    NotText,
    Value(Vec<u8>),
}

/// Stage A: from the credential header to a verified claim. Each failure is
/// a 401; a present, textual header yields exactly the claim its token
/// carries, when that token verifies unexpired under `key` at `now`.
pub fn extract_claim(header: &CredentialHeader, key: &[u8], now: i64) -> (r: Result<
    NomerClaim,
    ApiError,
>)
    ensures
        match header {
            CredentialHeader::Missing => r matches Err(e) && e.spec_status() == 401
                && e.spec_message() == "Missing X-Api-Key header"@,
            CredentialHeader::NotText => r matches Err(e) && e.spec_status() == 401
                && e.spec_message() == "Invalid X-Api-Key header"@,
            CredentialHeader::Value(v) => {
                &&& (r matches Ok(c) ==> token_accepted(v@, key@, now as int, c@))
                &&& (forall|c: ClaimView|
                    token_accepted(v@, key@, now as int, c) ==> (r matches Ok(rc) && rc@ == c))
                &&& (r matches Err(e) ==> e.spec_status() == 401 && e.spec_message()
                    == "Invalid API key"@)
            },
        },
{
    match header {
        CredentialHeader::Missing => Err(ApiError::InvalidToken("Missing X-Api-Key header")),
        CredentialHeader::NotText => Err(ApiError::InvalidToken("Invalid X-Api-Key header")),
        CredentialHeader::Value(v) => {
            match verify_at(v.as_slice(), key, now) {
                Some(c) => Ok(c),
                None => Err(ApiError::InvalidToken("Invalid API key")),
            }
        },
    }
}

/// The extra gate for access-only endpoints: a verified claim passes only
/// if it is of access kind; a refresh token presented here is refused with
/// the same uniform message as any other bad token.
pub fn require_access_kind(claim: NomerClaim) -> (r: Result<NomerClaim, ApiError>)
    ensures
        claim@.acc ==> (r matches Ok(c) && c@ == claim@),
        !claim@.acc ==> (r matches Err(e) && e.spec_status() == 401 && e.spec_message()
            == "Invalid API key"@),
{
    if claim.acc {
        Ok(claim)
    } else {
        Err(ApiError::InvalidToken("Invalid API key"))
    }
}

/// Stage B: from the identity store's answer for the claim's subject to the
/// request's principal. A subject with no record — an identity deleted after
/// its token was issued — gets the same 401 message as any bad token, so a
/// client cannot tell a deleted account from a tampered credential; the
/// caller may still log the stale subject server-side for audit. A store
/// failure stays internal.
pub fn resolve_principal(lookup: LookupOutcome) -> (r: Result<Nomer, ApiError>)
    ensures
        match lookup {
            LookupOutcome::Found(n) => r matches Ok(p) && p == n,
            LookupOutcome::Missing => r matches Err(e) && e.spec_status() == 401
                && e.spec_message() == "Invalid API key"@,
            LookupOutcome::StoreError => r matches Err(e) && e.spec_status() == 500
                && e.spec_message() == "Database error"@,
        },
{
    match lookup {
        LookupOutcome::Found(n) => Ok(n),
        LookupOutcome::Missing => Err(ApiError::InvalidToken("Invalid API key")),
        LookupOutcome::StoreError => Err(ApiError::Internal("Database error")),
    }
}

} // verus!
