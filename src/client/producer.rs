//! Packing of probe records into bus messages.

use crate::probe::{encode_probe, serialize_probe, Probe};
use vstd::prelude::*;

verus! {

/// An agent that a measurement is sent to: its name (the header key), the
/// source address its probes use, and the measurement they belong to.
#[derive(Clone, Debug)]
pub struct MeasurementInfo {
    pub name: String,
    pub src_ip: Option<String>,
    pub measurement_id: Option<String>,
}

/// Packing `encs` in order: the messages closed so far and the one being
/// filled. A record that would take the message being filled over
/// `max_bytes` closes it and starts the next one.
pub open spec fn message_run(encs: Seq<Seq<u8>>, max_bytes: nat) -> (Seq<Seq<u8>>, Seq<u8>)
    decreases encs.len(),
{
    if encs.len() == 0 {
        (Seq::empty(), Seq::empty())
    } else {
        let (ms, cur) = message_run(encs.drop_last(), max_bytes);
        let e = encs.last();
        if cur.len() + e.len() > max_bytes {
            (ms.push(cur), e)
        } else {
            (ms, cur + e)
        }
    }
}

/// The messages that packing `encs` gives, the last one included where it
/// holds anything.
pub open spec fn messages_of(encs: Seq<Seq<u8>>, max_bytes: nat) -> Seq<Seq<u8>> {
    let (ms, cur) = message_run(encs, max_bytes);
    if cur.len() > 0 {
        ms.push(cur)
    } else {
        ms
    }
}

pub open spec fn probe_records(ps: Seq<Probe>) -> Seq<Seq<u8>> {
    ps.map_values(|p: Probe| encode_probe(p@))
}

/// Packs the records of `probes`, in order, into messages of at most
/// `message_max_bytes` bytes, where each record fits one.
pub fn create_messages(probes: Vec<Probe>, message_max_bytes: usize) -> (r: Vec<Vec<u8>>)
    ensures
        r@.map_values(|m: Vec<u8>| m@) == messages_of(probe_records(probes@), message_max_bytes as nat),
{
    let ghost encs = probe_records(probes@);
    let mut messages: Vec<Vec<u8>> = Vec::new();
    let mut current: Vec<u8> = Vec::new();
    let mut i: usize = 0;
    while i < probes.len()
        invariant
            i <= probes@.len(),
            encs == probe_records(probes@),
            encs.len() == probes@.len(),
            message_run(encs.subrange(0, i as int), message_max_bytes as nat) == (
                messages@.map_values(|m: Vec<u8>| m@),
                current@,
            ),
        decreases probes@.len() - i,
    {
        let bin = serialize_probe(&probes[i]);
        proof {
            assert(encs.subrange(0, i + 1).drop_last() =~= encs.subrange(0, i as int));
            assert(encs.subrange(0, i + 1).last() == bin@);
        }
        if current.len() > message_max_bytes || bin.len() > message_max_bytes - current.len() {
            let mut next: Vec<u8> = Vec::new();
            crate::wire::append_bytes(&mut next, bin.as_slice());
            let ghost before = messages@;
            core::mem::swap(&mut current, &mut next);
            messages.push(next);
            proof {
                assert(messages@.map_values(|m: Vec<u8>| m@) =~= before.map_values(|m: Vec<u8>| m@).push(next@));
            }
        } else {
            crate::wire::append_bytes(&mut current, bin.as_slice());
        }
        i = i + 1;
    }
    assert(encs.subrange(0, i as int) =~= encs);
    if current.len() > 0 {
        let ghost before = messages@;
        messages.push(current);
        assert(messages@.map_values(|m: Vec<u8>| m@) =~= before.map_values(|m: Vec<u8>| m@).push(current@));
    }
    messages
}

} // verus!
