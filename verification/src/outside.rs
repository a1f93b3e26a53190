use vstd::prelude::*;

verus! {

/// What `bcrypt::verify` answers for a password and a stored hash. `None`
/// stands for its error (a text that is no bcrypt hash, or a cost out of
/// range); `Some(b)` for `Ok(b)`.
pub uninterp spec fn bcrypt_verify(password: Seq<char>, hash: Seq<char>) -> Option<bool>;

/// Calls `bcrypt::verify`, which splits the salt and cost off the hash,
/// hashes the password again with them and compares. The result depends on
/// the two texts alone; nothing here is proved of it.
#[verifier::external_body]
pub(crate) fn verify_password(password: &str, hash: &str) -> (r: Option<bool>)
    ensures
        r == bcrypt_verify(password@, hash@),
{
    bcrypt::verify(password, hash).ok()
}

/// Calls `bcrypt::hash` at `bcrypt::DEFAULT_COST`. The salt is drawn from
/// the system's random source, so two calls differ and the call may fail
/// (`None`). Assumed of every hash it returns: `bcrypt::verify` accepts the
/// same password against it, since verifying repeats the hashing with the
/// salt and cost written into the hash.
#[verifier::external_body]
pub(crate) fn hash_password(password: &str) -> (r: Option<String>)
    ensures
        r matches Some(h) ==> bcrypt_verify(password@, h@) == Some(true),
{
    bcrypt::hash(password, bcrypt::DEFAULT_COST).ok()
}

/// Calls `chrono::Local::now` and gives the local wall-clock time as
/// microseconds since 1970-01-01 00:00:00. Nothing is assumed of the value.
#[verifier::external_body]
pub(crate) fn local_now_micros() -> i64 {
    chrono::Local::now().naive_local().and_utc().timestamp_micros()
}

} // verus!
