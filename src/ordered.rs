//! Building version 1 identifiers, and their time-ordered layout.

use crate::config::Config;
use crate::layout::{
    hyphenated, lemma_v1_version, reordered, ticks_of, v1_fields, version_of, TICKS_BETWEEN_EPOCHS,
};
use crate::outside::{
    as_bytes, from_bytes, hyphenated_text, new_v1, now_unix, timestamp_from_unix, uuid_bytes,
    version_num,
};
use uuid::Uuid;
use vstd::prelude::*;

verus! {

/// The bytes of a version 1 UUID with its timestamp fields moved so that
/// byte order follows creation time. It is not a standard UUID layout.
#[derive(Debug)]
pub struct OrderedUuid(Uuid);

impl View for OrderedUuid {
    type V = Seq<u8>;

    closed spec fn view(&self) -> Seq<u8> {
        uuid_bytes(self.0)@
    }
}

impl OrderedUuid {
    /// The hyphenated hexadecimal text of the sixteen bytes.
    pub fn render(&self) -> (r: String)
        ensures
            r@ == hyphenated(self@),
    {
        hyphenated_text(&self.0)
    }
}

/// Whether a Unix time has a v1 timestamp that fits in 64 bits.
pub open spec fn in_v1_range(seconds: int, subsec_nanos: int) -> bool {
    0 <= seconds && ticks_of(seconds, subsec_nanos) <= u64::MAX
}

/// Generation of version 1 identifiers, and their time-ordered layout.
pub trait Uuid1: Sized {
    /// The sixteen bytes of the identifier, in network order.
    spec fn bytes_view(&self) -> Seq<u8>;

    /// The identifier of a given Unix time, with the context's node and the
    /// next counter of its clock sequence; none where the time has no v1
    /// timestamp in 64 bits.
    fn v1_at(config: &Config, seconds: i64, subsec_nanos: u32) -> (r: Option<Self>)
        ensures
            r is Some <==> in_v1_range(seconds as int, subsec_nanos as int),
            r is Some ==> exists|counter: u16|
                r->0.bytes_view() == #[trigger] v1_fields(
                    ticks_of(seconds as int, subsec_nanos as int) as u64,
                    counter,
                    config.spec_node(),
                ),
            r is Some ==> version_of(r->0.bytes_view()) == 1,
            r is Some ==> r->0.bytes_view().subrange(10, 16) == config.spec_node(),
    ;

    /// The identifier of the current time; none only where the clock reads
    /// a time outside the v1 range.
    fn v1(config: &Config) -> (r: Option<Self>)
        ensures
            r is Some ==> exists|ticks: u64, counter: u16|
                r->0.bytes_view() == #[trigger] v1_fields(ticks, counter, config.spec_node()),
            r is Some ==> version_of(r->0.bytes_view()) == 1,
            r is Some ==> r->0.bytes_view().subrange(10, 16) == config.spec_node(),
    ;

    /// The time-ordered layout of a version 1 identifier; none for any
    /// other version.
    fn ordered(&self) -> (r: Option<OrderedUuid>)
        ensures
            r is Some <==> version_of(self.bytes_view()) == 1,
            r is Some ==> r->0@ == reordered(self.bytes_view()),
    ;
}

impl Uuid1 for Uuid {
    open spec fn bytes_view(&self) -> Seq<u8> {
        uuid_bytes(*self)@
    }

    fn v1_at(config: &Config, seconds: i64, subsec_nanos: u32) -> (r: Option<Uuid>) {
        if seconds < 0 {
            return None;
        }
        let secs = seconds as u64;
        if secs > (u64::MAX - TICKS_BETWEEN_EPOCHS - (subsec_nanos / 100) as u64) / 10_000_000 {
            return None;
        }
        let (ticks, counter) = timestamp_from_unix(config.context(), secs, subsec_nanos);
        let node = config.node();
        let id = new_v1(ticks, counter, &node);
        proof {
            lemma_v1_version(ticks, counter, node@);
            assert(id.bytes_view() == v1_fields(
                ticks_of(seconds as int, subsec_nanos as int) as u64,
                counter,
                config.spec_node(),
            ));
        }
        Some(id)
    }

    fn v1(config: &Config) -> (r: Option<Uuid>) {
        let (seconds, subsec_nanos) = now_unix();
        Uuid::v1_at(config, seconds, subsec_nanos)
    }

    fn ordered(&self) -> (r: Option<OrderedUuid>) {
        if version_num(self) != 1 {
            return None;
        }
        let b = as_bytes(self);
        let o: [u8; 16] = [
            b[6],
            b[7],
            b[4],
            b[5],
            b[0],
            b[1],
            b[2],
            b[3],
            b[8],
            b[9],
            b[10],
            b[11],
            b[12],
            b[13],
            b[14],
            b[15],
        ];
        assert(o@ =~= reordered(b@));
        Some(OrderedUuid(from_bytes(o)))
    }
}

/// Every identifier in the v1 layout, as `v1` and `v1_at` build them, is
/// accepted by `ordered`.
pub proof fn lemma_generated_is_eligible(id: Uuid, node: Seq<u8>)
    requires
        node.len() == 6,
        exists|ticks: u64, counter: u16| id.bytes_view() == #[trigger] v1_fields(ticks, counter, node),
    ensures
        version_of(id.bytes_view()) == 1,
{
    let (ticks, counter) = choose|ticks: u64, counter: u16|
        id.bytes_view() == #[trigger] v1_fields(ticks, counter, node);
    lemma_v1_version(ticks, counter, node);
}

/// Two identifiers built from one context carry the same node.
pub proof fn lemma_same_node(a: Uuid, b: Uuid, node: Seq<u8>)
    requires
        node.len() == 6,
        exists|ticks: u64, counter: u16| a.bytes_view() == #[trigger] v1_fields(ticks, counter, node),
        exists|ticks: u64, counter: u16| b.bytes_view() == #[trigger] v1_fields(ticks, counter, node),
    ensures
        a.bytes_view().subrange(10, 16) == b.bytes_view().subrange(10, 16),
{
    let (ta, ca) = choose|ticks: u64, counter: u16|
        a.bytes_view() == #[trigger] v1_fields(ticks, counter, node);
    let (tb, cb) = choose|ticks: u64, counter: u16|
        b.bytes_view() == #[trigger] v1_fields(ticks, counter, node);
    lemma_v1_version(ta, ca, node);
    lemma_v1_version(tb, cb, node);
}

} // verus!
