//! What the library takes from uuid, chrono, rand and std, with the
//! contracts that their sources and documentation give.

use crate::layout::{hyphenated, ticks_of, v1_fields, version_of};
use chrono::Utc;
use uuid::v1::{Context, Timestamp};
use uuid::Uuid;
use vstd::prelude::*;

verus! {

#[verifier::external_type_specification]
#[verifier::external_body]
pub struct ExUuid(Uuid);

#[verifier::external_type_specification]
#[verifier::external_body]
pub struct ExContext(Context);

/// The sixteen bytes that a `Uuid` holds, in network order.
pub uninterp spec fn uuid_bytes(u: Uuid) -> [u8; 16];

/// What `str::trim` leaves of a text.
pub uninterp spec fn trimmed(s: Seq<char>) -> Seq<char>;

/// The bytes of the UUID that `Uuid::parse_str` reads from a text, if any.
pub uninterp spec fn parsed_uuid(s: Seq<char>) -> Option<[u8; 16]>;

/// Relies on `Uuid::as_bytes`: it hands back the bytes the value holds.
#[verifier::external_body]
pub fn as_bytes(u: &Uuid) -> (r: [u8; 16])
    ensures
        r == uuid_bytes(*u),
{
    *u.as_bytes()
}

/// Relies on `Uuid::from_bytes`: the value holds exactly the given bytes.
#[verifier::external_body]
pub fn from_bytes(b: [u8; 16]) -> (r: Uuid)
    ensures
        uuid_bytes(r) == b,
{
    Uuid::from_bytes(b)
}

/// Relies on `Uuid::get_version_num`: the high nibble of byte 6.
#[verifier::external_body]
pub fn version_num(u: &Uuid) -> (r: usize)
    ensures
        r == version_of(uuid_bytes(*u)@) as usize,
{
    u.get_version_num()
}

/// Relies on `Uuid::new_v4`: random bytes, with the version nibble set to 4.
#[verifier::external_body]
pub fn new_v4() -> (r: Uuid)
    ensures
        version_of(uuid_bytes(r)@) == 4,
{
    Uuid::new_v4()
}

/// Relies on `Context::new`: a clock sequence that starts at `count`.
#[verifier::external_body]
pub fn new_context(count: u16) -> (r: Context) {
    Context::new(count)
}

/// Relies on `Timestamp::from_unix`: the ticks since 1582-10-15 of a Unix
/// time, and the next counter of the context's clock sequence. The sum is
/// computed in `u64` and must not overflow.
#[verifier::external_body]
pub fn timestamp_from_unix(ctx: &Context, seconds: u64, subsec_nanos: u32) -> (r: (u64, u16))
    requires
        ticks_of(seconds as int, subsec_nanos as int) <= u64::MAX,
    ensures
        r.0 as int == ticks_of(seconds as int, subsec_nanos as int),
{
    Timestamp::from_unix(ctx, seconds, subsec_nanos).to_rfc4122()
}

/// Relies on `Uuid::new_v1`: the standard v1 layout of a timestamp, a
/// counter and a node. It fails only on a node whose length is not six.
#[verifier::external_body]
pub fn new_v1(ticks: u64, counter: u16, node: &[u8; 6]) -> (r: Uuid)
    ensures
        uuid_bytes(r)@ == v1_fields(ticks, counter, node@),
{
    Uuid::new_v1(Timestamp::from_rfc4122(ticks, counter), node).unwrap()
}

/// Relies on `Uuid::parse_str`, in any of the textual forms it accepts.
#[verifier::external_body]
pub fn parse_uuid(s: &str) -> (r: Option<Uuid>)
    ensures
        match r {
            Some(u) => parsed_uuid(s@) == Some(uuid_bytes(u)),
            None => parsed_uuid(s@) is None,
        },
{
    Uuid::parse_str(s).ok()
}

/// Relies on `str::trim`.
#[verifier::external_body]
pub fn trim(s: &str) -> (r: &str)
    ensures
        r@ == trimmed(s@),
{
    s.trim()
}

/// Relies on `Uuid`'s `Display`, which writes the hyphenated lowercase
/// form (`adapter::encode`).
#[verifier::external_body]
pub fn hyphenated_text(u: &Uuid) -> (r: String)
    ensures
        r@ == hyphenated(uuid_bytes(*u)@),
{
    u.to_string()
}

/// Relies on `Utc::now`: the current Unix time as whole seconds and the
/// nanoseconds past them, which a leap second may push past one second.
#[verifier::external_body]
pub fn now_unix() -> (r: (i64, u32))
    ensures
        r.1 < 2_000_000_000,
{
    let now = Utc::now();
    (now.timestamp(), now.timestamp_subsec_nanos())
}

/// Relies on `rand::random`: a value from the thread's generator, of which
/// nothing is known.
pub assume_specification<T>[ rand::random::<T> ]() -> (r: T)
    where
        rand::distributions::Standard: rand::distributions::Distribution<T>,
;

} // verus!
