//! What the library takes from the machine it runs on: random bytes, fresh
//! identifiers and the time. Nothing is known of these values but their
//! shape, so each caller is proved for whatever comes back.

use vstd::prelude::*;
use rand::Rng;

verus! {

/// The bits of an identifier that say it was drawn at random: the version
/// (four bits, worth 4) and the variant (two bits, worth 2).
pub const UUID_FIXED_MASK: u128 = 0x0000_0000_0000_f000_c000_0000_0000_0000;

/// What those bits hold in every such identifier.
pub const UUID_FIXED_BITS: u128 = 0x0000_0000_0000_4000_8000_0000_0000_0000;

/// Whether an identifier has the bits of one that was drawn at random.
pub open spec fn drawn_id(id: u128) -> bool {
    id & UUID_FIXED_MASK == UUID_FIXED_BITS
}

/// The latest time that the clock gives: the last microsecond of the year
/// 262142, the latest date that a time of the clock's crate can hold.
pub const MAX_CLOCK_MICROS: i64 = 8_210_266_876_799_999_999;

/// Whether the clock can give this time: not before 1970, and not after
/// its latest date.
pub open spec fn clock_time(now: i64) -> bool {
    0 <= now <= MAX_CLOCK_MICROS
}

/// `rand::thread_rng().gen()` for an array of 32 bytes: each byte is drawn
/// from the thread's generator, which is seeded from the operating system
/// and panics where that fails. Nothing is claimed of the bytes.
#[verifier::external_body]
pub(crate) fn random_bytes() -> (bytes: [u8; 32]) {
    rand::thread_rng().gen()
}

/// `uuid::Uuid::new_v4`, read as one number with `as_u128`: 122 random
/// bits; the crate sets the version and variant bits itself.
#[verifier::external_body]
pub(crate) fn random_uuid() -> (id: u128)
    ensures
        drawn_id(id),
{
    uuid::Uuid::new_v4().as_u128()
}

/// `chrono::Utc::now`, read with `timestamp_micros`: the microseconds
/// since the start of 1970 on the machine's clock. The crate panics where
/// that clock stands before 1970 or after the crate's latest date, so
/// every time that it gives lies between the two. No more is claimed: a
/// clock may stand still or be set back.
#[verifier::external_body]
pub(crate) fn now_micros() -> (now: i64)
    ensures
        clock_time(now),
{
    chrono::Utc::now().timestamp_micros()
}

} // verus!
