//! The credential and session core of a small listing-and-review service:
//! a signed-claim token codec, password credentials, the login and refresh
//! flows, the per-request authenticator, and the pure decisions behind the
//! data routes.
pub mod authenticate;
pub mod bytes64;
pub mod catalog;
pub mod claim;
pub mod codec;
pub mod config;
pub mod error;
pub mod identity;
pub mod jsontext;
pub mod outside;
pub mod review;
pub mod session;
