//! Password hashing.
//!
//! Passwords are stored as the unsalted SHA-256 digest of their UTF-8 bytes,
//! written as lower-case hexadecimal. The missing salt is a known weakness of
//! the protocol's password model and is kept for compatibility with stored
//! credentials.

use sha2::Digest;
use vstd::prelude::*;

verus! {

/// The lower-case hexadecimal SHA-256 digest of a text's UTF-8 bytes.
pub uninterp spec fn sha256_hex(text: Seq<char>) -> Seq<char>;

/// Hashes a password for storage or comparison.
///
/// Trusted: feeds the password's bytes to `sha2::Sha256` (`Digest::new`,
/// `Digest::update`, `Digest::finalize`) and formats the digest with `{:x}`.
/// The digest depends on the bytes alone, so the contract gives the result
/// the name `sha256_hex` of the password.
#[verifier::external_body]
pub(crate) fn hash_password(password: &str) -> (hash: String)
    ensures
        hash@ == sha256_hex(password@),
{
    let mut hasher = sha2::Sha256::new();
    hasher.update(password);
    format!("{:x}", hasher.finalize())
}

} // verus!
