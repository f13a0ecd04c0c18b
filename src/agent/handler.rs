//! The dispatcher: which inbound messages concern this agent, what their
//! headers say, and which instance's send loop receives their probes.

use crate::agent::gateway::MeasurementInfo;
use crate::agent::sender::ProbesWithSource;
use crate::config::{validate_ip_against_prefixes, CaracatConfig};
use crate::net::{option_view, prefix_verdict};
use crate::probe::{decode_probes, deserialize_probes, Probe, ProbeView};
use crate::text::{json_member, json_member_of, str_equals, utf8_text, JsonMember, JsonScalar};
use crate::wire::{DecodeError, DecodeErrorKind};
use vstd::prelude::*;
use vstd::utf8::{decode_utf8, valid_utf8};

verus! {

/// Why no instance takes a batch.
#[derive(Clone, Copy, Debug, PartialEq, Eq, Structural)]
pub enum TargetError {
    /// The batch names a source address that no instance's prefixes hold,
    /// and no instance is without prefixes.
    SourceNotInAnyPrefix,
    /// The batch names no source address, and no instance is without
    /// prefixes.
    NoDefaultInstance,
}

/// The first position from `from` on where `ids` holds `id`.
pub open spec fn first_entry(ids: Seq<u16>, id: u16, from: int) -> Option<int>
    decreases ids.len() - from,
{
    if from < 0 || from >= ids.len() {
        None
    } else if ids[from] == id {
        Some(from)
    } else {
        first_entry(ids, id, from + 1)
    }
}

/// Whether an instance's prefixes hold the address that `ip` spells.
pub open spec fn prefix_accepts(c: CaracatConfig, ip: Seq<char>) -> bool {
    c.has_prefix() && prefix_verdict(ip, option_view(c.src_ipv4_prefix), option_view(c.src_ipv6_prefix)) is Ok
}

/// The registry position of the first instance, from position `i` of the
/// configuration on, whose prefixes hold `ip` and that has a send queue.
pub open spec fn prefix_target(ids: Seq<u16>, cfgs: Seq<CaracatConfig>, ip: Seq<char>, i: int) -> Option<int>
    decreases cfgs.len() - i,
{
    if i < 0 || i >= cfgs.len() {
        None
    } else if prefix_accepts(cfgs[i], ip) && first_entry(ids, cfgs[i].instance_id, 0) is Some {
        first_entry(ids, cfgs[i].instance_id, 0)
    } else {
        prefix_target(ids, cfgs, ip, i + 1)
    }
}

/// The registry position of the first instance, from position `i` of the
/// configuration on, that has no prefixes and has a send queue.
pub open spec fn default_target(ids: Seq<u16>, cfgs: Seq<CaracatConfig>, i: int) -> Option<int>
    decreases cfgs.len() - i,
{
    if i < 0 || i >= cfgs.len() {
        None
    } else if !cfgs[i].has_prefix() && first_entry(ids, cfgs[i].instance_id, 0) is Some {
        first_entry(ids, cfgs[i].instance_id, 0)
    } else {
        default_target(ids, cfgs, i + 1)
    }
}

/// The registry position of the send queue that takes a batch, and whether
/// the batch keeps its source address: the first instance whose prefixes
/// hold the batch's source, else the first instance without prefixes.
pub open spec fn target_spec(ids: Seq<u16>, cfgs: Seq<CaracatConfig>, ip: Option<Seq<char>>) -> Result<(int, bool), TargetError> {
    let by_prefix = match ip {
        Some(a) => prefix_target(ids, cfgs, a, 0),
        None => None,
    };
    match by_prefix {
        Some(k) => Ok((k, true)),
        None => match default_target(ids, cfgs, 0) {
            Some(k) => Ok((k, false)),
            None => Err(
                if ip is Some {
                    TargetError::SourceNotInAnyPrefix
                } else {
                    TargetError::NoDefaultInstance
                },
            ),
        },
    }
}

pub open spec fn registry_ids<T>(reg: Seq<(u16, T)>) -> Seq<u16> {
    reg.map_values(|e: (u16, T)| e.0)
}

pub open spec fn opt_ref_view(o: Option<&String>) -> Option<Seq<char>> {
    match o {
        Some(s) => Some(s@),
        None => None,
    }
}

fn find_entry<T>(registry: &Vec<(u16, T)>, id: u16) -> (r: Option<usize>)
    ensures
        match r {
            Some(k) => k < registry@.len() && first_entry(registry_ids(registry@), id, 0) == Some(k as int),
            None => first_entry(registry_ids(registry@), id, 0) is None,
        },
{
    let ghost ids = registry_ids(registry@);
    let mut k: usize = 0;
    while k < registry.len()
        invariant
            k <= registry@.len(),
            ids == registry_ids(registry@),
            ids.len() == registry@.len(),
            first_entry(ids, id, 0) == first_entry(ids, id, k as int),
        decreases registry@.len() - k,
    {
        assert(ids[k as int] == registry@[k as int].0);
        if registry[k].0 == id {
            return Some(k);
        }
        k = k + 1;
    }
    None
}

/// Selects the send queue that takes a batch, from the registry that maps
/// instance ids to send queues: the first instance, in configuration order,
/// whose prefixes hold the batch's source address (keeping that address),
/// else the first instance with no prefixes (using the instance's default
/// source).
pub fn determine_target_sender<'a, T>(
    probe_senders: &'a Vec<(u16, T)>,
    caracat_configs: &[CaracatConfig],
    sender_ip_from_header: Option<&String>,
) -> (r: Result<(Option<&'a T>, bool), TargetError>)
    ensures
        match r {
            Ok((s, keep)) => match target_spec(
                registry_ids(probe_senders@),
                caracat_configs@,
                opt_ref_view(sender_ip_from_header),
            ) {
                Ok((k, keep2)) => keep == keep2 && 0 <= k < probe_senders@.len() && s == Some(
                    &probe_senders@[k].1,
                ),
                Err(_) => false,
            },
            Err(e) => target_spec(registry_ids(probe_senders@), caracat_configs@, opt_ref_view(sender_ip_from_header))
                == Err::<(int, bool), TargetError>(e),
        },
{
    let ghost ids = registry_ids(probe_senders@);
    let ghost cfgs = caracat_configs@;
    if let Some(ip) = sender_ip_from_header {
        let mut i: usize = 0;
        while i < caracat_configs.len()
            invariant
                i <= cfgs.len(),
                cfgs == caracat_configs@,
                ids == registry_ids(probe_senders@),
                prefix_target(ids, cfgs, ip@, 0) == prefix_target(ids, cfgs, ip@, i as int),
                sender_ip_from_header == Some(ip),
            decreases cfgs.len() - i,
        {
            let c = &caracat_configs[i];
            let has_prefix = c.src_ipv4_prefix.is_some() || c.src_ipv6_prefix.is_some();
            let accepted = has_prefix && validate_ip_against_prefixes(
                ip.as_str(),
                &c.src_ipv4_prefix,
                &c.src_ipv6_prefix,
            ).is_ok();
            assert(accepted == prefix_accepts(cfgs[i as int], ip@));
            if accepted {
                if let Some(k) = find_entry(probe_senders, c.instance_id) {
                    assert(prefix_target(ids, cfgs, ip@, i as int) == Some(k as int));
                    assert(opt_ref_view(sender_ip_from_header) == Some(ip@));
                    return Ok((Some(&probe_senders[k].1), true));
                }
            }
            i = i + 1;
        }
    }
    let mut i: usize = 0;
    while i < caracat_configs.len()
        invariant
            i <= cfgs.len(),
            cfgs == caracat_configs@,
            ids == registry_ids(probe_senders@),
            default_target(ids, cfgs, 0) == default_target(ids, cfgs, i as int),
            sender_ip_from_header is Some ==> prefix_target(ids, cfgs, sender_ip_from_header->0@, 0) is None,
        decreases cfgs.len() - i,
    {
        let c = &caracat_configs[i];
        let has_prefix = c.src_ipv4_prefix.is_some() || c.src_ipv6_prefix.is_some();
        if !has_prefix {
            if let Some(k) = find_entry(probe_senders, c.instance_id) {
                assert(default_target(ids, cfgs, i as int) == Some(k as int));
                return Ok((Some(&probe_senders[k].1), false));
            }
        }
        i = i + 1;
    }
    if sender_ip_from_header.is_some() {
        Err(TargetError::SourceNotInAnyPrefix)
    } else {
        Err(TargetError::NoDefaultInstance)
    }
}

/// Where no `src_ip` is given, the first instance without prefixes that has
/// a send queue takes the batch, without a source address; where no
/// instance is without prefixes, the batch is rejected.
pub proof fn lemma_dispatcher_selection(ids: Seq<u16>, cfgs: Seq<CaracatConfig>)
    ensures
        (exists|i: int| 0 <= i < cfgs.len() && !(#[trigger] cfgs[i]).has_prefix() && first_entry(ids, cfgs[i].instance_id, 0) is Some)
            ==> exists|i: int| {
                &&& 0 <= i < cfgs.len()
                &&& !(#[trigger] cfgs[i]).has_prefix()
                &&& forall|j: int| 0 <= j < i ==> (#[trigger] cfgs[j]).has_prefix() || first_entry(ids, cfgs[j].instance_id, 0) is None
                &&& first_entry(ids, cfgs[i].instance_id, 0) is Some
                &&& target_spec(ids, cfgs, None) == Ok::<(int, bool), TargetError>((first_entry(ids, cfgs[i].instance_id, 0)->0, false))
            },
        (forall|i: int| 0 <= i < cfgs.len() ==> (#[trigger] cfgs[i]).has_prefix())
            ==> target_spec(ids, cfgs, None) == Err::<(int, bool), TargetError>(TargetError::NoDefaultInstance),
{
    lemma_default_target(ids, cfgs, 0);
}

proof fn lemma_default_target(ids: Seq<u16>, cfgs: Seq<CaracatConfig>, from: int)
    requires
        0 <= from <= cfgs.len(),
    ensures
        (exists|i: int| from <= i < cfgs.len() && !(#[trigger] cfgs[i]).has_prefix() && first_entry(ids, cfgs[i].instance_id, 0) is Some)
            ==> exists|i: int| {
                &&& from <= i < cfgs.len()
                &&& !(#[trigger] cfgs[i]).has_prefix()
                &&& forall|j: int| from <= j < i ==> (#[trigger] cfgs[j]).has_prefix() || first_entry(ids, cfgs[j].instance_id, 0) is None
                &&& first_entry(ids, cfgs[i].instance_id, 0) is Some
                &&& default_target(ids, cfgs, from) == first_entry(ids, cfgs[i].instance_id, 0)
            },
        (forall|i: int| from <= i < cfgs.len() ==> (#[trigger] cfgs[i]).has_prefix()) ==> default_target(ids, cfgs, from) is None,
    decreases cfgs.len() - from,
{
    if from < cfgs.len() {
        lemma_default_target(ids, cfgs, from + 1);
        if !cfgs[from].has_prefix() && first_entry(ids, cfgs[from].instance_id, 0) is Some {
            assert(default_target(ids, cfgs, from) == first_entry(ids, cfgs[from].instance_id, 0));
        } else if exists|i: int| from <= i < cfgs.len() && !(#[trigger] cfgs[i]).has_prefix() && first_entry(ids, cfgs[i].instance_id, 0) is Some {
            let i = choose|i: int| from <= i < cfgs.len() && !(#[trigger] cfgs[i]).has_prefix() && first_entry(ids, cfgs[i].instance_id, 0) is Some;
            assert(i != from);
            let w = choose|w: int| {
                &&& from + 1 <= w < cfgs.len()
                &&& !(#[trigger] cfgs[w]).has_prefix()
                &&& forall|j: int| from + 1 <= j < w ==> (#[trigger] cfgs[j]).has_prefix() || first_entry(ids, cfgs[j].instance_id, 0) is None
                &&& first_entry(ids, cfgs[w].instance_id, 0) is Some
                &&& default_target(ids, cfgs, from + 1) == first_entry(ids, cfgs[w].instance_id, 0)
            };
            assert forall|j: int| from <= j < w implies (#[trigger] cfgs[j]).has_prefix() || first_entry(ids, cfgs[j].instance_id, 0) is None by {
                if j > from {
                }
            }
        }
    }
}

/// One header of an inbound message.
#[derive(Clone, Debug)]
pub struct Header {
    pub key: String,
    pub value: Option<Vec<u8>>,
}

/// What the headers addressed to this agent say.
#[derive(Debug)]
pub struct HeaderMetadata {
    /// Some header is addressed to this agent.
    pub intended: bool,
    /// The source address the batch asks for.
    pub src_ip: Option<String>,
    /// The measurement the batch belongs to.
    pub measurement_info: Option<MeasurementInfo>,
}

pub type MetaView = (bool, Option<Seq<char>>, Option<(Seq<char>, bool)>);

pub open spec fn info_view(m: Option<MeasurementInfo>) -> Option<(Seq<char>, bool)> {
    match m {
        Some(i) => Some((i.measurement_id@, i.end_of_measurement)),
        None => None,
    }
}

pub open spec fn meta_view(m: HeaderMetadata) -> MetaView {
    (m.intended, option_view(m.src_ip), info_view(m.measurement_info))
}

/// The text of a header's value, where it is UTF-8.
pub open spec fn header_text(h: Header) -> Option<Seq<char>> {
    match h.value {
        Some(v) => if valid_utf8(v@) {
            Some(decode_utf8(v@))
        } else {
            None
        },
        None => None,
    }
}

/// The string member `key` of a JSON text.
pub open spec fn str_member(t: Seq<char>, key: Seq<char>) -> Option<Seq<char>> {
    match json_member_of(t, key) {
        Some(Some(JsonMember::Str(s))) => Some(s),
        _ => None,
    }
}

/// The boolean member `key` of a JSON text.
pub open spec fn bool_member(t: Seq<char>, key: Seq<char>) -> Option<bool> {
    match json_member_of(t, key) {
        Some(Some(JsonMember::Bool(b))) => Some(b),
        _ => None,
    }
}

/// What one more header changes: a header keyed by the agent id marks the
/// message as addressed to it; where its value is a JSON document, the
/// document's `src_ip` becomes the source address, and its
/// `measurement_id` and `end_of_measurement`, when both are there, the
/// measurement.
pub open spec fn meta_step(m: MetaView, agent: Seq<char>, h: Header) -> MetaView {
    if h.key@ != agent {
        m
    } else {
        match header_text(h) {
            Some(t) => if json_member_of(t, "src_ip"@) is Some {
                (
                    true,
                    str_member(t, "src_ip"@),
                    match (str_member(t, "measurement_id"@), bool_member(t, "end_of_measurement"@)) {
                        (Some(id), Some(e)) => Some((id, e)),
                        _ => m.2,
                    },
                )
            } else {
                (true, m.1, m.2)
            },
            None => (true, m.1, m.2),
        }
    }
}

pub open spec fn headers_meta(agent: Seq<char>, hs: Seq<Header>) -> MetaView
    decreases hs.len(),
{
    if hs.len() == 0 {
        (false, None, None)
    } else {
        meta_step(headers_meta(agent, hs.drop_last()), agent, hs.last())
    }
}

/// Reads the headers addressed to the agent `agent_id`.
pub fn read_headers(agent_id: &str, headers: &Vec<Header>) -> (r: HeaderMetadata)
    ensures
        meta_view(r) == headers_meta(agent_id@, headers@),
{
    let mut m = HeaderMetadata { intended: false, src_ip: None, measurement_info: None };
    let mut i: usize = 0;
    while i < headers.len()
        invariant
            i <= headers@.len(),
            meta_view(m) == headers_meta(agent_id@, headers@.subrange(0, i as int)),
        decreases headers@.len() - i,
    {
        let h = &headers[i];
        proof {
            assert(headers@.subrange(0, i + 1).drop_last() =~= headers@.subrange(0, i as int));
            assert(headers@.subrange(0, i + 1).last() == *h);
        }
        if str_equals(h.key.as_str(), agent_id) {
            m.intended = true;
            match &h.value {
                Some(v) => match utf8_text(v.as_slice()) {
                    Some(t) => match json_member(t.as_str(), "src_ip") {
                        None => {},
                        Some(src) => {
                            m.src_ip = match src {
                                Some(JsonScalar::Str(s)) => Some(s),
                                _ => None,
                            };
                            let id = json_member(t.as_str(), "measurement_id");
                            let end = json_member(t.as_str(), "end_of_measurement");
                            match (id, end) {
                                (Some(Some(JsonScalar::Str(id))), Some(Some(JsonScalar::Bool(e)))) => {
                                    m.measurement_info = Some(
                                        MeasurementInfo { measurement_id: id, end_of_measurement: e },
                                    );
                                },
                                _ => {},
                            }
                        },
                    },
                    None => {},
                },
                None => {},
            }
        }
        i = i + 1;
    }
    assert(headers@.subrange(0, i as int) =~= headers@);
    m
}

/// A message is addressed to the agent exactly when one of its headers is
/// keyed by the agent's id; any other message is dropped by `route_message`
/// before its payload is read.
pub proof fn lemma_recipient_filter(agent: Seq<char>, hs: Seq<Header>)
    ensures
        headers_meta(agent, hs).0 <==> exists|i: int| 0 <= i < hs.len() && (#[trigger] hs[i]).key@ == agent,
    decreases hs.len(),
{
    if hs.len() > 0 {
        let d = hs.drop_last();
        lemma_recipient_filter(agent, d);
        if headers_meta(agent, d).0 {
            let i = choose|i: int| 0 <= i < d.len() && (#[trigger] d[i]).key@ == agent;
            assert(hs[i] == d[i]);
        }
        if exists|i: int| 0 <= i < hs.len() && (#[trigger] hs[i]).key@ == agent {
            let i = choose|i: int| 0 <= i < hs.len() && (#[trigger] hs[i]).key@ == agent;
            if i < hs.len() - 1 {
                assert(d[i] == hs[i]);
            }
        }
    }
}

/// What the dispatcher does with one inbound message. Every message is
/// acknowledged, whatever the outcome.
#[derive(Debug)]
pub enum DispatchOutcome<'a, T> {
    /// No header is addressed to this agent: the message is dropped.
    NotForThisAgent,
    /// The payload holds a malformed record: the message is dropped.
    Undecodable(DecodeError),
    /// The payload holds no probe: the message is dropped.
    NoProbes,
    /// No instance takes the batch: it is dropped.
    Rejected(TargetError),
    /// The batch goes to this send queue.
    Dispatch(&'a T, ProbesWithSource),
}

pub open spec fn probes_view(ps: Seq<Probe>) -> Seq<ProbeView> {
    ps.map_values(|p: Probe| p@)
}

/// Routes one inbound message, given the agent's id, the registry mapping
/// instance ids to send queues, and the instance configurations.
pub fn route_message<'a, T>(
    agent_id: &str,
    headers: &Vec<Header>,
    payload: &[u8],
    probe_senders: &'a Vec<(u16, T)>,
    caracat_configs: &[CaracatConfig],
) -> (r: DispatchOutcome<'a, T>)
    ensures
        r is NotForThisAgent <==> !headers_meta(agent_id@, headers@).0,
        match r {
            DispatchOutcome::NotForThisAgent => true,
            DispatchOutcome::Undecodable(e) => decode_probes(payload@) == Err::<Seq<ProbeView>, (int, DecodeErrorKind)>(
                (e.offset as int, e.kind),
            ),
            DispatchOutcome::NoProbes => decode_probes(payload@) == Ok::<Seq<ProbeView>, (int, DecodeErrorKind)>(
                Seq::empty(),
            ),
            DispatchOutcome::Rejected(e) => {
                &&& decode_probes(payload@) is Ok
                &&& decode_probes(payload@)->Ok_0.len() > 0
                &&& target_spec(registry_ids(probe_senders@), caracat_configs@, headers_meta(agent_id@, headers@).1)
                    == Err::<(int, bool), TargetError>(e)
            },
            DispatchOutcome::Dispatch(t, b) => {
                &&& decode_probes(payload@) == Ok::<Seq<ProbeView>, (int, DecodeErrorKind)>(probes_view(b.probes@))
                &&& b.probes@.len() > 0
                &&& info_view(b.measurement_info) == headers_meta(agent_id@, headers@).2
                &&& match target_spec(
                    registry_ids(probe_senders@),
                    caracat_configs@,
                    headers_meta(agent_id@, headers@).1,
                ) {
                    Ok((k, keep)) => {
                        &&& 0 <= k < probe_senders@.len()
                        &&& t == &probe_senders@[k].1
                        &&& keep ==> headers_meta(agent_id@, headers@).1 == Some(b.source_ip@)
                        &&& !keep ==> b.source_ip@.len() == 0
                    },
                    Err(_) => false,
                }
            },
        },
{
    let meta = read_headers(agent_id, headers);
    if !meta.intended {
        return DispatchOutcome::NotForThisAgent;
    }
    let probes = match deserialize_probes(vstd::slice::slice_to_vec(payload)) {
        Err(e) => return DispatchOutcome::Undecodable(e),
        Ok(p) => p,
    };
    if probes.len() == 0 {
        assert(probes_view(probes@) =~= Seq::<ProbeView>::empty());
        return DispatchOutcome::NoProbes;
    }
    match determine_target_sender(probe_senders, caracat_configs, meta.src_ip.as_ref()) {
        Err(e) => DispatchOutcome::Rejected(e),
        Ok((target, keep)) => {
            let t = match target {
                Some(t) => t,
                None => {
                    return DispatchOutcome::Rejected(TargetError::NoDefaultInstance);
                },
            };
            let source_ip = if keep {
                match &meta.src_ip {
                    Some(s) => s.clone(),
                    None => String::new(),
                }
            } else {
                String::new()
            };
            DispatchOutcome::Dispatch(
                t,
                ProbesWithSource { probes, source_ip, measurement_info: meta.measurement_info },
            )
        },
    }
}

/// Whether the instance at position `i` is the first with its id; only
/// those get a send queue in the registry.
pub open spec fn first_of_its_id(cfgs: Seq<CaracatConfig>, i: int) -> bool {
    forall|j: int| 0 <= j < i ==> (#[trigger] cfgs[j]).instance_id != cfgs[i].instance_id
}

/// For each instance, whether it is the first with its id. A later instance
/// with the same id is ignored.
pub fn registered_instances(caracat_configs: &[CaracatConfig]) -> (r: Vec<bool>)
    ensures
        r@.len() == caracat_configs@.len(),
        forall|i: int| 0 <= i < r@.len() ==> #[trigger] r@[i] == first_of_its_id(caracat_configs@, i),
{
    let mut out: Vec<bool> = Vec::new();
    let mut i: usize = 0;
    while i < caracat_configs.len()
        invariant
            i <= caracat_configs@.len(),
            out@.len() == i,
            forall|k: int| 0 <= k < i ==> #[trigger] out@[k] == first_of_its_id(caracat_configs@, k),
        decreases caracat_configs@.len() - i,
    {
        let id = caracat_configs[i].instance_id;
        let mut first = true;
        let mut j: usize = 0;
        while j < i
            invariant
                i < caracat_configs@.len(),
                j <= i,
                id == caracat_configs@[i as int].instance_id,
                first == forall|k: int| 0 <= k < j ==> (#[trigger] caracat_configs@[k]).instance_id != id,
            decreases i - j,
        {
            if caracat_configs[j].instance_id == id {
                first = false;
            }
            j = j + 1;
        }
        out.push(first);
        i = i + 1;
    }
    out
}

/// The instances bound to one interface, which share a receive loop.
#[derive(Clone, Debug)]
pub struct InterfaceGroup {
    pub interface: String,
    pub instance_ids: Vec<u16>,
    /// The integrity check setting of the interface's first instance.
    pub integrity_check: bool,
}

/// The ids of the instances bound to `iface`, in configuration order.
pub open spec fn ids_on(cfgs: Seq<CaracatConfig>, iface: Seq<char>) -> Seq<u16>
    decreases cfgs.len(),
{
    if cfgs.len() == 0 {
        Seq::empty()
    } else if cfgs.last().interface@ == iface {
        ids_on(cfgs.drop_last(), iface).push(cfgs.last().instance_id)
    } else {
        ids_on(cfgs.drop_last(), iface)
    }
}

/// Whether some instance is bound to `iface`.
pub open spec fn has_interface(cfgs: Seq<CaracatConfig>, iface: Seq<char>) -> bool {
    exists|i: int| 0 <= i < cfgs.len() && (#[trigger] cfgs[i]).interface@ == iface
}

/// The integrity check setting of the first instance bound to `iface`.
pub open spec fn first_integrity(cfgs: Seq<CaracatConfig>, iface: Seq<char>) -> bool
    decreases cfgs.len(),
{
    if cfgs.len() == 0 {
        false
    } else if has_interface(cfgs.drop_last(), iface) {
        first_integrity(cfgs.drop_last(), iface)
    } else {
        cfgs.last().interface@ == iface && cfgs.last().integrity_check
    }
}

pub open spec fn groups_wf(cfgs: Seq<CaracatConfig>, gs: Seq<InterfaceGroup>) -> bool {
    &&& forall|a: int| 0 <= a < gs.len() ==> (#[trigger] gs[a]).integrity_check == first_integrity(cfgs, gs[a].interface@)
    &&& forall|a: int, b: int| 0 <= a < b < gs.len() ==> (#[trigger] gs[a]).interface@ != (#[trigger] gs[b]).interface@
    &&& forall|a: int| 0 <= a < gs.len() ==> has_interface(cfgs, (#[trigger] gs[a]).interface@)
    &&& forall|a: int| 0 <= a < gs.len() ==> (#[trigger] gs[a]).instance_ids@ == ids_on(cfgs, gs[a].interface@)
    &&& forall|i: int| 0 <= i < cfgs.len() ==> exists|a: int| 0 <= a < gs.len() && (#[trigger] gs[a]).interface@
        == (#[trigger] cfgs[i]).interface@
}

fn find_group(groups: &Vec<InterfaceGroup>, iface: &str) -> (r: Option<usize>)
    ensures
        match r {
            Some(a) => a < groups@.len() && groups@[a as int].interface@ == iface@,
            None => forall|b: int| 0 <= b < groups@.len() ==> (#[trigger] groups@[b]).interface@ != iface@,
        },
{
    let mut a: usize = 0;
    while a < groups.len()
        invariant
            a <= groups@.len(),
            forall|b: int| 0 <= b < a ==> (#[trigger] groups@[b]).interface@ != iface@,
        decreases groups@.len() - a,
    {
        if str_equals(groups[a].interface.as_str(), iface) {
            return Some(a);
        }
        a = a + 1;
    }
    None
}

/// The interfaces the instances are bound to, each once, in order of first
/// use, with the ids of the instances bound to it.
pub fn interface_groups(caracat_configs: &[CaracatConfig]) -> (r: Vec<InterfaceGroup>)
    ensures
        groups_wf(caracat_configs@, r@),
{
    let ghost cfgs = caracat_configs@;
    let mut groups: Vec<InterfaceGroup> = Vec::new();
    let mut i: usize = 0;
    while i < caracat_configs.len()
        invariant
            i <= cfgs.len(),
            cfgs == caracat_configs@,
            groups_wf(cfgs.subrange(0, i as int), groups@),
        decreases cfgs.len() - i,
    {
        let c = &caracat_configs[i];
        let ghost pre = cfgs.subrange(0, i as int);
        let ghost next = cfgs.subrange(0, i + 1);
        proof {
            assert(next.drop_last() =~= pre);
            assert(next.last() == *c);
        }
        let pos = find_group(&groups, c.interface.as_str());
        let ghost old_groups = groups@;
        if let Some(a) = pos {
            let mut g = groups.remove(a);
            g.instance_ids.push(c.instance_id);
            groups.insert(a, g);
            proof {
                assert forall|b: int| 0 <= b < groups@.len() implies (#[trigger] groups@[b]).instance_ids@ == ids_on(
                    next,
                    groups@[b].interface@,
                ) by {
                    if b != a {
                        assert(groups@[b] == old_groups[b]);
                    }
                }
                assert forall|b: int| 0 <= b < groups@.len() implies (#[trigger] groups@[b]).integrity_check
                    == first_integrity(next, groups@[b].interface@) by {
                    assert(groups@[b].interface@ == old_groups[b].interface@);
                    assert(groups@[b].integrity_check == old_groups[b].integrity_check);
                    assert(has_interface(pre, old_groups[b].interface@));
                }
                assert forall|x: int| 0 <= x < next.len() implies exists|b: int| 0 <= b < groups@.len() && (
                #[trigger] groups@[b]).interface@ == (#[trigger] next[x]).interface@ by {
                    if x < i {
                        assert(next[x] == pre[x]);
                        let b = choose|b: int| 0 <= b < old_groups.len() && (#[trigger] old_groups[b]).interface@
                            == pre[x].interface@;
                        assert(groups@[b].interface@ == old_groups[b].interface@);
                    } else {
                        assert(groups@[a as int].interface@ == next[x].interface@);
                    }
                }
                assert forall|b: int| 0 <= b < groups@.len() implies has_interface(next, (#[trigger] groups@[b]).interface@) by {
                    assert(groups@[b].interface@ == old_groups[b].interface@);
                    let x = choose|x: int| 0 <= x < pre.len() && (#[trigger] pre[x]).interface@ == old_groups[b].interface@;
                    assert(next[x] == pre[x]);
                }
                assert forall|b1: int, b2: int| 0 <= b1 < b2 < groups@.len() implies (#[trigger] groups@[b1]).interface@
                    != (#[trigger] groups@[b2]).interface@ by {
                    assert(groups@[b1].interface@ == old_groups[b1].interface@);
                    assert(groups@[b2].interface@ == old_groups[b2].interface@);
                }
            }
        } else {
            let mut ids: Vec<u16> = Vec::new();
            ids.push(c.instance_id);
            groups.push(InterfaceGroup { interface: c.interface.clone(), instance_ids: ids, integrity_check: c.integrity_check });
            proof {
                assert(!has_interface(pre, c.interface@)) by {
                    if has_interface(pre, c.interface@) {
                        let x = choose|x: int| 0 <= x < pre.len() && (#[trigger] pre[x]).interface@ == c.interface@;
                        let b = choose|b: int| 0 <= b < old_groups.len() && (#[trigger] old_groups[b]).interface@
                            == pre[x].interface@;
                    }
                }
                lemma_ids_on_absent(pre, c.interface@);
                assert forall|b: int| 0 <= b < groups@.len() implies (#[trigger] groups@[b]).instance_ids@ == ids_on(
                    next,
                    groups@[b].interface@,
                ) by {
                    if b < old_groups.len() {
                        assert(groups@[b] == old_groups[b]);
                    } else {
                        assert(ids_on(pre, c.interface@).push(c.instance_id) =~= ids@);
                    }
                }
                assert forall|b: int| 0 <= b < groups@.len() implies (#[trigger] groups@[b]).integrity_check
                    == first_integrity(next, groups@[b].interface@) by {
                    if b < old_groups.len() {
                        assert(groups@[b] == old_groups[b]);
                        assert(has_interface(pre, old_groups[b].interface@));
                    }
                }
                assert forall|x: int| 0 <= x < next.len() implies exists|b: int| 0 <= b < groups@.len() && (
                #[trigger] groups@[b]).interface@ == (#[trigger] next[x]).interface@ by {
                    if x < i {
                        assert(next[x] == pre[x]);
                        let b = choose|b: int| 0 <= b < old_groups.len() && (#[trigger] old_groups[b]).interface@
                            == pre[x].interface@;
                        assert(groups@[b] == old_groups[b]);
                    } else {
                        assert(groups@[old_groups.len() as int].interface@ == next[x].interface@);
                    }
                }
                assert forall|b: int| 0 <= b < groups@.len() implies has_interface(next, (#[trigger] groups@[b]).interface@) by {
                    if b < old_groups.len() {
                        assert(groups@[b] == old_groups[b]);
                        let x = choose|x: int| 0 <= x < pre.len() && (#[trigger] pre[x]).interface@ == old_groups[b].interface@;
                        assert(next[x] == pre[x]);
                    } else {
                        assert(next[i as int].interface@ == groups@[b].interface@);
                    }
                }
                assert forall|b1: int, b2: int| 0 <= b1 < b2 < groups@.len() implies (#[trigger] groups@[b1]).interface@
                    != (#[trigger] groups@[b2]).interface@ by {
                    assert(groups@[b1] == old_groups[b1]);
                    if b2 < old_groups.len() {
                        assert(groups@[b2] == old_groups[b2]);
                    }
                }
            }
        }
        i = i + 1;
    }
    assert(cfgs.subrange(0, i as int) =~= cfgs);
    groups
}

proof fn lemma_ids_on_absent(cfgs: Seq<CaracatConfig>, iface: Seq<char>)
    requires
        !has_interface(cfgs, iface),
    ensures
        ids_on(cfgs, iface) == Seq::<u16>::empty(),
    decreases cfgs.len(),
{
    if cfgs.len() > 0 {
        assert(cfgs.last() == cfgs[cfgs.len() - 1]);
        assert(!has_interface(cfgs.drop_last(), iface)) by {
            if has_interface(cfgs.drop_last(), iface) {
                let x = choose|x: int| 0 <= x < cfgs.drop_last().len() && (#[trigger] cfgs.drop_last()[x]).interface@ == iface;
                assert(cfgs[x] == cfgs.drop_last()[x]);
            }
        }
        lemma_ids_on_absent(cfgs.drop_last(), iface);
    }
}

} // verus!
