//! Every call that leaves this crate, gathered behind contracts that say no
//! more than the callee's own source and documentation show.
use vstd::prelude::*;

use argon2::PasswordHasher;
use argon2::PasswordVerifier;
use hmac::Mac;

verus! {

/// The HMAC-SHA-256 tag over a message under a key; a fixed function of the
/// two byte strings, named here rather than written out.
pub uninterp spec fn hmac_sha256_of(key: Seq<u8>, msg: Seq<u8>) -> Seq<u8>;

/// Relies on `hmac::Hmac<sha2::Sha256>` (`new_from_slice`, `update`,
/// `finalize`): HMAC-SHA-256 of the message under the key, a function of the
/// two byte strings alone, always a 32-byte tag. HMAC accepts keys of any
/// length, so `new_from_slice` cannot fail.
#[verifier::external_body]
pub fn hmac_sha256(key: &[u8], msg: &[u8]) -> (tag: Vec<u8>)
    ensures
        tag@ == hmac_sha256_of(key@, msg@),
        tag@.len() == 32,
{
    let mut mac = <hmac::Hmac<sha2::Sha256> as Mac>::new_from_slice(key).unwrap();
    mac.update(msg);
    mac.finalize().into_bytes().to_vec()
}

/// Relies on `chrono::Utc::now` and `DateTime::timestamp`: seconds since the
/// Unix epoch. The bound is loose; chrono's representable dates span roughly
/// the years -262144 to 262142, whose second counts stay well inside it.
#[verifier::external_body]
pub fn now_unix_seconds() -> (t: i64)
    ensures
        -9_000_000_000_000 <= t <= 9_000_000_000_000,
{
    chrono::Utc::now().timestamp()
}

/// Whether a stored credential string parses as a PHC-format hash.
pub uninterp spec fn phc_parses(hash: Seq<char>) -> bool;

/// Whether a password matches a PHC-format hash; a function of the two
/// arguments alone, since the salt and parameters live inside the hash
/// string.
pub uninterp spec fn argon2_matches(password: Seq<u8>, hash: Seq<char>) -> bool;

/// Relies on `argon2::PasswordHash::new` (parsing is a function of the
/// string) and `Argon2::verify_password` (recomputes the digest from the
/// salt and parameters in the hash and compares): `None` exactly when the
/// stored hash does not parse, otherwise whether the password matches.
#[verifier::external_body]
pub fn argon2_verify(password: &[u8], hash: &str) -> (r: Option<bool>)
    ensures
        r == if phc_parses(hash@) {
            Some(argon2_matches(password@, hash@))
        } else {
            None::<bool>
        },
{
    match argon2::PasswordHash::new(hash) {
        Ok(parsed) => Some(
            argon2::Argon2::default().verify_password(password, &parsed).is_ok(),
        ),
        Err(_) => None,
    }
}

/// Relies on `Argon2::hash_password` with a salt drawn freshly from
/// `OsRng`: any returned PHC string parses, and verifying the same password
/// against it succeeds, since verification re-derives the digest from the
/// salt and parameters recorded in the string. The salt is random, so
/// nothing relates the outputs of two calls.
#[verifier::external_body]
pub fn argon2_hash(password: &[u8]) -> (r: Option<String>)
    ensures
        r matches Some(h) ==> phc_parses(h@) && argon2_matches(password@, h@),
{
    let salt = argon2::password_hash::SaltString::generate(
        &mut argon2::password_hash::rand_core::OsRng,
    );
    match argon2::Argon2::default().hash_password(password, &salt) {
        Ok(h) => Some(h.to_string()),
        Err(_) => None,
    }
}

/// Whether a string is a syntactically valid email address.
pub uninterp spec fn email_ok(s: Seq<char>) -> bool;

/// Relies on `email_address::EmailAddress::is_valid`: a pure syntactic check
/// of the address text against the RFC 5321/5322 grammar.
#[verifier::external_body]
pub fn email_is_valid(s: &str) -> (r: bool)
    ensures
        r == email_ok(s@),
{
    email_address::EmailAddress::is_valid(s)
}

/// Arbitrary-precision decimals pass through the catalog unread: the type is
/// declared so values of it can be carried, and stays opaque.
#[verifier::external_type_specification]
#[verifier::external_body]
pub struct ExBigDecimal(bigdecimal::BigDecimal);

/// Relies on `BigDecimal::clone` (derived): an exact copy of the value.
#[verifier::external_body]
pub fn bigdecimal_clone(v: &bigdecimal::BigDecimal) -> (r: bigdecimal::BigDecimal)
    ensures
        r == *v,
{
    v.clone()
}

/// Relies on `String::from_utf8`: succeeds exactly on valid UTF-8 and
/// decodes it; Rust's validity notion is the one `vstd::utf8` writes out.
#[verifier::external_body]
pub fn string_from_utf8(v: Vec<u8>) -> (r: Option<String>)
    ensures
        r is Some <==> vstd::utf8::valid_utf8(v@),
        r matches Some(s) ==> s@ == vstd::utf8::decode_utf8(v@),
{
    String::from_utf8(v).ok()
}

} // verus!
