use vstd::prelude::*;

verus! {

/// Whether bcrypt accepts `password` against the stored hash `hash`.
pub uninterp spec fn password_verifies(password: Seq<char>, hash: Seq<char>) -> bool;

#[verifier::external_type_specification]
#[verifier::external_body]
pub struct ExBcryptError(bcrypt::BcryptError);

/// Relies on bcrypt::verify: it re-hashes `password` with the cost and salt
/// read from `hash` and compares; the answer depends on the two texts alone.
/// A malformed hash is an error there and counts as a mismatch here.
#[verifier::external_body]
pub(crate) fn verify_password(password: &str, hash: &str) -> (r: bool)
    ensures
        r == password_verifies(password@, hash@),
{
    bcrypt::verify(password, hash).unwrap_or(false)
}

/// Relies on bcrypt::hash: a hash of `password` at work factor `cost` with a
/// random salt. The salt is random, so of a hash only this is stated: bcrypt
/// accepts `password` against it, since verify re-hashes with the same cost
/// and salt. It fails for a cost outside 4..=31 or when no randomness is
/// available.
#[verifier::external_body]
pub(crate) fn bcrypt_hash(password: &str, cost: u32) -> (r: Result<String, bcrypt::BcryptError>)
    ensures
        r matches Ok(h) ==> password_verifies(password@, h@),
        cost < 4 || cost > 31 ==> r is Err,
{
    bcrypt::hash(password, cost)
}

} // verus!
