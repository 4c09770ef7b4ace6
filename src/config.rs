//! The identity context: the clock sequence and the node that every
//! identifier of one process is built from.

use crate::outside::{
    as_bytes, new_context, new_v4, parse_uuid, parsed_uuid, trim, trimmed,
};
use uuid::v1::Context;
use vstd::prelude::*;

verus! {

/// The node that a machine id text names: the first six bytes of the UUID
/// it holds once trimmed, if it holds one.
pub open spec fn machine_node(text: Seq<char>) -> Option<Seq<u8>> {
    match parsed_uuid(trimmed(text)) {
        Some(b) => Some(b@.subrange(0, 6)),
        None => None,
    }
}

/// The first six bytes of sixteen.
fn first_six(b: &[u8; 16]) -> (r: [u8; 6])
    ensures
        r@ == b@.subrange(0, 6),
{
    let r: [u8; 6] = [b[0], b[1], b[2], b[3], b[4], b[5]];
    assert(r@ =~= b@.subrange(0, 6));
    r
}

/// Reads the node from the contents of a machine id file.
pub fn node_from_machine_id(text: &str) -> (r: Option<[u8; 6]>)
    ensures
        r is Some <==> machine_node(text@) is Some,
        r is Some ==> machine_node(text@) == Some(r->0@),
{
    match parse_uuid(trim(text)) {
        Some(id) => {
            let b = as_bytes(&id);
            Some(first_six(&b))
        },
        None => None,
    }
}

/// The shared state of a generating process. It does not change once made.
pub struct Config {
    ctx: Context,
    node: [u8; 6],
}

impl Config {
    /// The six node bytes of every identifier built from this context.
    pub closed spec fn spec_node(&self) -> Seq<u8> {
        self.node@
    }

    /// A context with a clock sequence starting at `clock_seq` and the given node.
    pub fn with_node(clock_seq: u16, node: [u8; 6]) -> (r: Config)
        ensures
            r.spec_node() == node@,
    {
        Config { ctx: new_context(clock_seq), node }
    }

    /// The context of a process, from the contents of its machine id file
    /// if it could be read. The node comes from that file where it holds a
    /// UUID, and from a random one otherwise; the clock sequence starts at
    /// a random value.
    pub fn new(machine_id: Option<&str>) -> (r: Config)
        ensures
            r.spec_node().len() == 6,
            machine_id is Some && machine_node(machine_id->0@) is Some ==> machine_node(
                machine_id->0@,
            ) == Some(r.spec_node()),
    {
        let found = match machine_id {
            Some(text) => node_from_machine_id(text),
            None => None,
        };
        let node = match found {
            Some(n) => n,
            None => {
                let fallback = new_v4();
                first_six(&as_bytes(&fallback))
            },
        };
        let clock_seq: u16 = rand::random();
        Config::with_node(clock_seq, node)
    }

    /// The node bytes.
    pub fn node(&self) -> (r: [u8; 6])
        ensures
            r@ == self.spec_node(),
    {
        self.node
    }

    pub(crate) fn context(&self) -> &Context {
        &self.ctx
    }
}

} // verus!
