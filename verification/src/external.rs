//! Trusted boundary to the outside crates the engine's logic relies on:
//! civil-calendar comparison (chrono), uniform sampling (rand), opaque
//! credential generation (uuid) and password verification (bcrypt).
use vstd::prelude::*;

verus! {

/// Timestamps the engine accepts: non-negative epoch seconds strictly below
/// the last second of year 9999, safely inside chrono's calendar range.
pub const TS_LIMIT: i64 = 253402300800;

pub open spec fn ts_ok(t: int) -> bool {
    0 <= t < 253402300800
}

/// The civil day number of epoch second `t` in the fixed UTC+9 calendar:
/// days elapsed since the epoch, counted at a nine-hour eastward offset.
pub open spec fn jst_day(t: int) -> int {
    (t + 32400) / 86400
}

/// Relies on chrono: `DateTime::from_timestamp` followed by `with_timezone`
/// to a `FixedOffset` nine hours east and `date_naive` yields the civil date
/// at UTC+9, so two instants compare date-equal exactly when they fall in the
/// same UTC+9 civil day, i.e. the same `jst_day`.
#[verifier::external_body]
pub fn same_civil_day_jst(a: i64, b: i64) -> (r: bool)
    requires
        ts_ok(a as int),
        ts_ok(b as int),
    ensures
        r == (jst_day(a as int) == jst_day(b as int)),
{
    let jst = chrono::FixedOffset::east_opt(9 * 3600).unwrap();
    let da = chrono::DateTime::from_timestamp(a, 0).unwrap().with_timezone(&jst).date_naive();
    let db = chrono::DateTime::from_timestamp(b, 0).unwrap().with_timezone(&jst).date_naive();
    da == db
}

/// Relies on rand: `Rng::gen_range(0..n)` returns a value of the non-empty
/// range, uniformly at random. Nothing beyond membership can be promised of
/// a random draw.
#[verifier::external_body]
pub fn random_below(n: i64) -> (r: i64)
    requires
        1 <= n,
    ensures
        0 <= r < n,
{
    rand::Rng::gen_range(&mut rand::thread_rng(), 0..n)
}

/// Relies on uuid: `Uuid::new_v4` drawn fresh, rendered hyphenated, is always
/// 36 characters. The value itself is random; no two calls may be assumed
/// equal or distinct.
#[verifier::external_body]
pub fn generate_uuid() -> (r: String)
    ensures
        r@.len() == 36,
{
    uuid::Uuid::new_v4().hyphenated().to_string()
}

/// Whether bcrypt accepts `password` against the cost-encoded `hash`: a
/// function of the two strings alone.
pub uninterp spec fn bcrypt_accepts(hash: Seq<char>, password: Seq<char>) -> bool;

/// Relies on bcrypt: `verify(password, hash)` deterministically re-derives the
/// digest from the two arguments; a malformed hash (the error case) is
/// treated as a mismatch.
#[verifier::external_body]
pub fn bcrypt_verify(hash: &str, password: &str) -> (r: bool)
    ensures
        r == bcrypt_accepts(hash@, password@),
{
    bcrypt::verify(password, hash).unwrap_or(false)
}

} // verus!
