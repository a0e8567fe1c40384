//! What comes from the machine: the time, and identifiers drawn at random.

use vstd::prelude::*;

use crate::hex_text::is_lower_hex;

verus! {

/// The whole seconds since the Unix epoch, where the clock does not stand before it.
///
/// Calls `std::time::SystemTime::duration_since` on the time that the system's clock shows. Nothing
/// is claimed of the result.
#[verifier::external_body]
fn seconds_since_epoch() -> (r: Option<u64>) {
    std::time::SystemTime::now().duration_since(std::time::UNIX_EPOCH).ok().map(|d| d.as_secs())
}

/// A timestamp: the seconds since the Unix epoch, 0 where the clock stands before it.
pub open spec fn timestamp_of(since_epoch: Option<u64>) -> u64 {
    match since_epoch {
        Some(seconds) => seconds,
        None => 0,
    }
}

/// The timestamp for what the clock shows.
pub fn timestamp(since_epoch: Option<u64>) -> (r: u64)
    ensures
        r == timestamp_of(since_epoch),
{
    match since_epoch {
        Some(seconds) => seconds,
        None => 0,
    }
}

/// Whether the system's clock showed some seconds since the Unix epoch when it was asked.
pub closed spec fn clock_shows(shown: Option<u64>) -> bool {
    call_ensures(seconds_since_epoch, (), shown)
}

/// Whether a timestamp is that of what the clock showed when it was asked.
pub open spec fn is_now(ts: u64) -> bool {
    exists|shown: Option<u64>| #[trigger] clock_shows(shown) && ts == timestamp_of(shown)
}

/// The timestamp of this moment.
pub(crate) fn current_ts() -> (r: u64)
    ensures
        is_now(r),
{
    let shown: Option<u64> = seconds_since_epoch();
    assert(clock_shows(shown));
    timestamp(shown)
}

/// The time as a signed number of seconds since the Unix epoch.
///
/// Calls `chrono::DateTime::from` on the time that the system's clock shows, and `timestamp`.
/// Nothing is claimed of the result.
#[verifier::external_body]
fn utc_timestamp() -> (r: i64) {
    chrono::DateTime::<chrono::Utc>::from(std::time::SystemTime::now()).timestamp()
}

/// Whether a time is what the clock of `chrono` showed when it was asked.
pub closed spec fn is_utc_now(now: i64) -> bool {
    call_ensures(utc_timestamp, (), now)
}

/// The time of this moment as a signed number of seconds since the Unix epoch.
pub(crate) fn utc_now() -> (r: i64)
    ensures
        is_utc_now(r),
{
    utc_timestamp()
}

/// The printed form of a version 4 UUID: 32 hexadecimal digits in groups of 8, 4, 4, 4 and 12,
/// of which the thirteenth is the version and the seventeenth tells the variant.
pub open spec fn is_uuid_v4(s: Seq<char>) -> bool {
    &&& s.len() == 36
    &&& s[14] == '4'
    &&& s[19] == '8' || s[19] == '9' || s[19] == 'a' || s[19] == 'b'
    &&& forall|i: int|
        0 <= i < 36 ==> if i == 8 || i == 13 || i == 18 || i == 23 {
            #[trigger] s[i] == '-'
        } else {
            is_lower_hex(s[i])
        }
}

/// A fresh random identifier.
///
/// Calls `uuid::Uuid::new_v4` and prints it. Claimed of every outcome: it has the printed form of
/// a version 4 UUID. That two calls differ is not claimed. Where the machine gives no randomness, the
/// call does not return.
#[verifier::external_body]
fn uuid_v4() -> (r: String)
    ensures
        is_uuid_v4(r@),
{
    uuid::Uuid::new_v4().to_string()
}

/// Whether a text is an identifier that was drawn at random.
pub closed spec fn is_drawn_id(id: Seq<char>) -> bool {
    exists|drawn: String| #[trigger] call_ensures(uuid_v4, (), drawn) && drawn@ == id
}

/// Draws an identifier.
pub(crate) fn gen_id() -> (r: String)
    ensures
        is_drawn_id(r@),
        is_uuid_v4(r@),
{
    uuid_v4()
}

} // verus!
