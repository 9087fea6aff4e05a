//! One-way password hashing and verification.
//!
//! The algorithm is bcrypt: salted, adaptive, with the per-call random salt
//! embedded in the output, so two hashes of one password differ while both
//! verify it. Verification is constant-time in the compared digests. A
//! mismatch is the boolean `false`; only a malformed stored hash is an error.

use vstd::prelude::*;
use crate::error::AppError;

verus! {

/// What bcrypt verification returns for a password and a stored hash:
/// `Some(true)` on a match, `Some(false)` on a mismatch, `None` when the
/// stored hash is not a well-formed bcrypt string. A pure function of the
/// two arguments.
pub uninterp spec fn bcrypt_verify_outcome(password: Seq<char>, hashed: Seq<char>) -> Option<
    bool,
>;

/// Relies on bcrypt::hash: the freshly salted hash it returns verifies the
/// password it was made from; a cost outside 4 to 31, or a failure of the
/// OS randomness, is an `Err`, never a panic.
#[verifier::external_body]
fn bcrypt_hash(password: &str, cost: u32) -> (r: Option<String>)
    ensures
        r matches Some(h) ==> bcrypt_verify_outcome(password@, h@) == Some(true),
{
    bcrypt::hash(password, cost).ok()
}

/// Relies on bcrypt::verify: deterministic in the password and the stored
/// hash; its `Err` (a malformed stored hash) is handed on as `None`.
#[verifier::external_body]
fn bcrypt_verify(password: &str, hashed: &str) -> (r: Option<bool>)
    ensures
        r == bcrypt_verify_outcome(password@, hashed@),
{
    bcrypt::verify(password, hashed).ok()
}

/// The work factor used when no other is asked for.
pub const DEFAULT_COST: u32 = 12;

/// Stateless credential hasher; holds only the bcrypt work factor, fixed at
/// construction.
pub struct Hashing {
    cost: u32,
}

impl Hashing {
    pub closed spec fn spec_cost(&self) -> u32 {
        self.cost
    }

    pub fn new() -> (r: Self)
        ensures
            r.spec_cost() == DEFAULT_COST,
    {
        Hashing { cost: DEFAULT_COST }
    }

    pub fn with_cost(cost: u32) -> (r: Self)
        ensures
            r.spec_cost() == cost,
    {
        Hashing { cost }
    }

    /// Hashes a plaintext password. Success yields a hash that verifies
    /// exactly that password; failure is a `HashingError`.
    pub fn hash_password(&self, password: &str) -> (r: Result<String, AppError>)
        ensures
            r matches Ok(h) ==> bcrypt_verify_outcome(password@, h@) == Some(true),
            r matches Err(e) ==> e == AppError::HashingError,
    {
        match bcrypt_hash(password, self.cost) {
            Some(h) => Ok(h),
            None => Err(AppError::HashingError),
        }
    }

    /// Compares a plaintext password against a stored hash. A mismatch is
    /// `Ok(false)`; only a malformed stored hash is an error.
    pub fn compare_password(&self, hashed: &str, password: &str) -> (r: Result<bool, AppError>)
        ensures
            r == match bcrypt_verify_outcome(password@, hashed@) {
                Some(b) => Ok::<bool, AppError>(b),
                None => Err::<bool, AppError>(AppError::HashingError),
            },
    {
        match bcrypt_verify(password, hashed) {
            Some(b) => Ok(b),
            None => Err(AppError::HashingError),
        }
    }
}

} // verus!
