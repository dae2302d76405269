//! Identity records, the registration checks, and password credentials.
use vstd::prelude::*;

use crate::error::ApiError;
use crate::outside::argon2_hash;
use crate::outside::argon2_matches;
use crate::outside::argon2_verify;
use crate::outside::email_is_valid;
use crate::outside::email_ok;
use crate::outside::phc_parses;
use vstd::string::StringSliceAdditionalSpecFns;

verus! {

/// An identity record as the store keeps it; timestamps are Unix seconds.
#[derive(Debug)]
pub struct Nomer {
    pub id: i64,
    pub display_name: String,
    pub email: String,
    pub password_hash: String,
    pub created_at: i64,
    pub updated_at: i64,
}

/// What the identity store answered for a lookup.
pub enum LookupOutcome {
    /// The record for the queried key.
    Found(Nomer),
    /// No record under that key.
    Missing,
    /// The store itself failed.
    StoreError,
}

/// A display name the service refuses: empty, or over 50 bytes.
pub open spec fn spec_invalid_display_name(s: &str) -> bool {
    s@.len() == 0 || s.len() > 50
}

/// True iff the display name is rejected.
pub fn validate_display_name(display_name: &str) -> (r: bool)
    ensures
        r == spec_invalid_display_name(display_name),
{
    display_name.is_empty() || display_name.len() > 50
}

/// True iff the email is rejected.
pub fn validate_email(email: &str) -> (r: bool)
    ensures
        r == !email_ok(email@),
{
    !email_is_valid(email)
}

/// A password the service refuses: under 8 or over 100 bytes.
pub open spec fn spec_invalid_password(s: &str) -> bool {
    s@.len() == 0 || s.len() < 8 || s.len() > 100
}

/// True iff the password is rejected.
pub fn validate_password(password: &str) -> (r: bool)
    ensures
        r == spec_invalid_password(password),
{
    password.is_empty() || password.len() < 8 || password.len() > 100
}

/// What checking a password against a stored hash yields: `None` marks a
/// hash that does not parse — data corruption, never "wrong password".
pub open spec fn spec_verify_password(pw: Seq<u8>, hash: Seq<char>) -> Option<bool> {
    if phc_parses(hash) {
        Some(argon2_matches(pw, hash))
    } else {
        None
    }
}

/// Checks a plaintext password against a stored salted hash. `None` means
/// the stored hash is unreadable, which callers map to an internal error.
pub fn verify_password(password: &str, hash: &str) -> (r: Option<bool>)
    ensures
        r == spec_verify_password(password.spec_bytes(), hash@),
{
    argon2_verify(password.as_bytes(), hash)
}

/// Hashes a password under a fresh random salt. Each call salts anew, so two
/// hashes of one password differ; yet any returned hash verifies against the
/// password it was made from.
pub fn hash_password(password: &str) -> (r: Option<String>)
    ensures
        r matches Some(h) ==> spec_verify_password(password.spec_bytes(), h@) == Some(true),
{
    argon2_hash(password.as_bytes())
}

/// A fresh hash of a password verifies against that password: what
/// `hash_password` returns, `verify_password` accepts.
pub proof fn lemma_hash_then_verify(pw: Seq<u8>, h: Seq<char>)
    requires
        phc_parses(h),
        argon2_matches(pw, h),
    ensures
        spec_verify_password(pw, h) == Some(true),
{
}

/// Rejects a registration whose display name, email or password is invalid;
/// all three failures surface as the same response.
pub fn validate_registration(display_name: &str, email: &str, password: &str) -> (r: Result<
    (),
    ApiError,
>)
    ensures
        r is Ok <==> !(spec_invalid_display_name(display_name) || !email_ok(email@)
            || spec_invalid_password(password)),
        r matches Err(e) ==> e.spec_status() == 400 && e.spec_message() == "Invalid input"@,
{
    if validate_display_name(display_name) || validate_email(email) || validate_password(
        password,
    ) {
        Err(ApiError::Validation("Invalid input"))
    } else {
        Ok(())
    }
}

/// What the uniqueness query answered.
pub enum CountOutcome {
    /// The number of rows already holding the display name or email.
    Counted(i64),
    /// The query failed.
    QueryError,
}

/// Decides whether a registration may proceed from the uniqueness count.
pub fn check_uniqueness(outcome: &CountOutcome) -> (r: Result<(), ApiError>)
    ensures
        match outcome {
            CountOutcome::Counted(n) => {
                &&& (r is Ok <==> *n <= 0)
                &&& (r matches Err(e) ==> e.spec_status() == 409 && e.spec_message()
                    == "Display name or email already exists"@)
            },
            CountOutcome::QueryError => r matches Err(e) && e.spec_status() == 500
                && e.spec_message() == "Database query failed"@,
        },
{
    match outcome {
        CountOutcome::Counted(n) => {
            if *n > 0 {
                Err(ApiError::Conflict("Display name or email already exists"))
            } else {
                Ok(())
            }
        },
        CountOutcome::QueryError => Err(ApiError::Internal("Database query failed")),
    }
}

/// Whether the insert of the new identity row went through.
pub enum InsertOutcome {
    Inserted,
    InsertError,
}

/// The final step of registration: the success message, or the uniform
/// internal error.
pub fn finish_registration(outcome: &InsertOutcome) -> (r: Result<&'static str, ApiError>)
    ensures
        match outcome {
            InsertOutcome::Inserted => r matches Ok(m) && m@ == "User created successfully"@,
            InsertOutcome::InsertError => r matches Err(e) && e.spec_status() == 500
                && e.spec_message() == "Failed to create user"@,
        },
{
    match outcome {
        InsertOutcome::Inserted => Ok("User created successfully"),
        InsertOutcome::InsertError => Err(ApiError::Internal("Failed to create user")),
    }
}

/// The hash step of registration: a missing hash is an internal failure.
pub fn require_password_hash(hash: Option<String>) -> (r: Result<String, ApiError>)
    ensures
        match hash {
            Some(h) => r matches Ok(rh) && rh@ == h@,
            None => r matches Err(e) && e.spec_status() == 500 && e.spec_message()
                == "Failed to hash password"@,
        },
{
    match hash {
        Some(h) => Ok(h),
        None => Err(ApiError::Internal("Failed to hash password")),
    }
}

/// The public slice of an identity: what anyone may see of a user.
#[derive(Debug, PartialEq)]
pub struct FetchPublicResponse {
    pub id: i64,
    pub display_name: String,
}

/// What the public-profile query answered.
pub enum PublicRowOutcome {
    Row(FetchPublicResponse),
    NoRow,
    QueryError,
}

/// Maps the public-profile lookup to a response: a missing row is the
/// client's "not found", anything else stays internal.
pub fn fetch_user_public_info(outcome: PublicRowOutcome) -> (r: Result<
    FetchPublicResponse,
    ApiError,
>)
    ensures
        match outcome {
            PublicRowOutcome::Row(row) => r matches Ok(p) && p == row,
            PublicRowOutcome::NoRow => r matches Err(e) && e.spec_status() == 404
                && e.spec_message() == "User not found"@,
            PublicRowOutcome::QueryError => r matches Err(e) && e.spec_status() == 500
                && e.spec_message() == "Database error"@,
        },
{
    match outcome {
        PublicRowOutcome::Row(row) => Ok(row),
        PublicRowOutcome::NoRow => Err(ApiError::NotFound("User not found")),
        PublicRowOutcome::QueryError => Err(ApiError::Internal("Database error")),
    }
}

} // verus!
