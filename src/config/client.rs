//! Arguments of the client tool: the agents a measurement is sent to.
//!
//! Agents are given as `name:address` pairs separated by commas; an IPv6
//! address is written in brackets, `name:[address]`.

use crate::client::producer::MeasurementInfo;
use crate::net::{ip_octets_of, parse_ip_address};
use crate::text::{find_char, index_from, lemma_index_from_bounds, split_char, split_from, trim, trim_spec};
use vstd::prelude::*;

verus! {

#[verifier::external_type_specification]
#[verifier::external_body]
pub struct ExPathBuf(std::path::PathBuf);

/// The client's settings: the agents with their source addresses, and where
/// the probes are read from (standard input when `None`).
#[derive(Debug)]
pub struct ClientConfig {
    pub measurement_infos: Vec<MeasurementInfo>,
    pub probes_file: Option<std::path::PathBuf>,
}

/// Why an agent list is refused.
#[derive(Clone, Copy, Debug, PartialEq, Eq, Structural)]
pub enum ClientArgsError {
    NoAgents,
    EmptySpecification,
    UnclosedBracket,
    BadFormat,
    EmptyName,
    EmptyAddress,
    InvalidAddress,
}

impl ClientArgsError {
    /// A sentence that says what is wrong.
    pub fn to_string(&self) -> String {
        match self {
            ClientArgsError::NoAgents => "At least one agent must be specified".to_owned(),
            ClientArgsError::EmptySpecification => "Empty agent specification provided".to_owned(),
            ClientArgsError::UnclosedBracket => {
                "Invalid agent specification. IPv6 addresses must be enclosed in brackets: 'agent_name:[ipv6_address]'".to_owned()
            },
            ClientArgsError::BadFormat => {
                "Invalid agent specification. Expected format: 'agent_name:ip_address' or 'agent_name:[ipv6_address]'".to_owned()
            },
            ClientArgsError::EmptyName => "Empty agent name in specification".to_owned(),
            ClientArgsError::EmptyAddress => "Empty IP address in specification".to_owned(),
            ClientArgsError::InvalidAddress => "Invalid IP address format in specification".to_owned(),
        }
    }
}

/// A text without its trailing colons.
pub open spec fn trim_end_colons(s: Seq<char>) -> Seq<char>
    decreases s.len(),
{
    if s.len() > 0 && s.last() == ':' {
        trim_end_colons(s.drop_last())
    } else {
        s
    }
}

/// The checks on a name and an address once they are cut out.
pub open spec fn checked_agent(name: Seq<char>, ip: Seq<char>) -> Result<(Seq<char>, Seq<char>), ClientArgsError> {
    if name.len() == 0 {
        Err(ClientArgsError::EmptyName)
    } else if ip.len() == 0 {
        Err(ClientArgsError::EmptyAddress)
    } else if ip_octets_of(ip) is None {
        Err(ClientArgsError::InvalidAddress)
    } else {
        Ok((name, ip))
    }
}

/// The name and address of one agent specification: where it holds a `[`,
/// the name is what precedes it without trailing colons and the address
/// what lies between it and the first `]`; else it must be exactly two
/// fields separated by `:`, each trimmed.
pub open spec fn agent_of(piece: Seq<char>) -> Result<(Seq<char>, Seq<char>), ClientArgsError> {
    let t = trim_spec(piece);
    if t.len() == 0 {
        Err(ClientArgsError::EmptySpecification)
    } else {
        match index_from(t, '[', 0) {
            Some(open) => match index_from(t, ']', 0) {
                None => Err(ClientArgsError::UnclosedBracket),
                Some(close) => if close < open + 1 {
                    Err(ClientArgsError::UnclosedBracket)
                } else {
                    checked_agent(trim_end_colons(t.subrange(0, open)), t.subrange(open + 1, close))
                },
            },
            None => {
                let parts = split_from(t, ':', 0);
                if parts.len() != 2 {
                    Err(ClientArgsError::BadFormat)
                } else {
                    checked_agent(trim_spec(parts[0]), trim_spec(parts[1]))
                }
            },
        }
    }
}

/// The agents of the pieces, or the error of the first bad one.
pub open spec fn agents_of(pieces: Seq<Seq<char>>) -> Result<Seq<(Seq<char>, Seq<char>)>, ClientArgsError>
    decreases pieces.len(),
{
    if pieces.len() == 0 {
        Ok(Seq::empty())
    } else {
        match agents_of(pieces.drop_last()) {
            Err(e) => Err(e),
            Ok(xs) => match agent_of(pieces.last()) {
                Err(e) => Err(e),
                Ok(x) => Ok(xs.push(x)),
            },
        }
    }
}

/// The agents an agent list names.
pub open spec fn parse_agents(s: Seq<char>) -> Result<Seq<(Seq<char>, Seq<char>)>, ClientArgsError> {
    let t = trim_spec(s);
    if t.len() == 0 {
        Err(ClientArgsError::NoAgents)
    } else {
        agents_of(split_from(t, ',', 0))
    }
}

pub open spec fn agent_view(m: MeasurementInfo) -> (Seq<char>, Seq<char>) {
    (
        m.name@,
        match m.src_ip {
            Some(s) => s@,
            None => Seq::empty(),
        },
    )
}

fn without_trailing_colons(s: &str) -> (r: String)
    ensures
        r@ == trim_end_colons(s@),
{
    let mut end = s.unicode_len();
    proof {
        assert(s@.subrange(0, s@.len() as int) =~= s@);
    }
    while end > 0 && s.get_char(end - 1) == ':'
        invariant
            end <= s@.len(),
            trim_end_colons(s@) == trim_end_colons(s@.subrange(0, end as int)),
        decreases end,
    {
        assert(s@.subrange(0, end as int).drop_last() =~= s@.subrange(0, end - 1));
        end = end - 1;
    }
    s.substring_char(0, end).to_owned()
}

fn check_agent(name: String, ip: String) -> (r: Result<MeasurementInfo, ClientArgsError>)
    ensures
        match r {
            Ok(m) => checked_agent(name@, ip@) == Ok::<(Seq<char>, Seq<char>), ClientArgsError>(agent_view(m))
                && m.src_ip is Some && m.measurement_id is None,
            Err(e) => checked_agent(name@, ip@) == Err::<(Seq<char>, Seq<char>), ClientArgsError>(e),
        },
{
    if name.as_str().is_empty() {
        return Err(ClientArgsError::EmptyName);
    }
    if ip.as_str().is_empty() {
        return Err(ClientArgsError::EmptyAddress);
    }
    if parse_ip_address(ip.as_str()).is_none() {
        return Err(ClientArgsError::InvalidAddress);
    }
    Ok(MeasurementInfo { name, src_ip: Some(ip), measurement_id: None })
}

fn parse_agent(piece: &str) -> (r: Result<MeasurementInfo, ClientArgsError>)
    ensures
        match r {
            Ok(m) => agent_of(piece@) == Ok::<(Seq<char>, Seq<char>), ClientArgsError>(agent_view(m))
                && m.src_ip is Some && m.measurement_id is None,
            Err(e) => agent_of(piece@) == Err::<(Seq<char>, Seq<char>), ClientArgsError>(e),
        },
{
    let t = trim(piece);
    let ts = t.as_str();
    if ts.is_empty() {
        return Err(ClientArgsError::EmptySpecification);
    }
    match find_char(ts, '[') {
        Some(open) => match find_char(ts, ']') {
            None => Err(ClientArgsError::UnclosedBracket),
            Some(close) => if close <= open {
                Err(ClientArgsError::UnclosedBracket)
            } else {
                let name = without_trailing_colons(ts.substring_char(0, open));
                let ip = ts.substring_char(open + 1, close).to_owned();
                check_agent(name, ip)
            },
        },
        None => {
            let parts = split_char(ts, ':');
            proof {
                assert(parts@.map_values(|p: String| p@).len() == parts@.len());
            }
            if parts.len() != 2 {
                Err(ClientArgsError::BadFormat)
            } else {
                proof {
                    assert(parts@.map_values(|p: String| p@)[0] == parts@[0]@);
                    assert(parts@.map_values(|p: String| p@)[1] == parts@[1]@);
                }
                let name = trim(parts[0].as_str());
                let ip = trim(parts[1].as_str());
                check_agent(name, ip)
            }
        },
    }
}

/// Reads the agent list `agents` into the client's settings, with
/// `probes_file` as the probe source. Each agent gets its address as source
/// address and no measurement id.
pub fn parse_and_validate_client_args(
    agents: &str,
    probes_file: Option<std::path::PathBuf>,
) -> (r: Result<ClientConfig, ClientArgsError>)
    ensures
        match r {
            Ok(c) => {
                &&& parse_agents(agents@) == Ok::<Seq<(Seq<char>, Seq<char>)>, ClientArgsError>(
                    c.measurement_infos@.map_values(|m: MeasurementInfo| agent_view(m)),
                )
                &&& c.measurement_infos@.len() > 0
                &&& forall|i: int| 0 <= i < c.measurement_infos@.len() ==> (#[trigger] c.measurement_infos@[i]).src_ip is Some
                    && c.measurement_infos@[i].measurement_id is None
                &&& c.probes_file == probes_file
            },
            Err(e) => parse_agents(agents@) == Err::<Seq<(Seq<char>, Seq<char>)>, ClientArgsError>(e),
        },
{
    let t = trim(agents);
    if t.as_str().is_empty() {
        return Err(ClientArgsError::NoAgents);
    }
    let pieces = split_char(t.as_str(), ',');
    let ghost ps = pieces@.map_values(|p: String| p@);
    let mut infos: Vec<MeasurementInfo> = Vec::new();
    let mut i: usize = 0;
    assert(ps.subrange(0, 0) =~= Seq::<Seq<char>>::empty());
    assert(infos@.map_values(|m: MeasurementInfo| agent_view(m)) =~= Seq::<(Seq<char>, Seq<char>)>::empty());
    while i < pieces.len()
        invariant
            i <= pieces@.len(),
            ps == pieces@.map_values(|p: String| p@),
            ps == split_from(t@, ',', 0),
            t@ == trim_spec(agents@),
            t@.len() > 0,
            agents_of(ps.subrange(0, i as int)) == Ok::<Seq<(Seq<char>, Seq<char>)>, ClientArgsError>(
                infos@.map_values(|m: MeasurementInfo| agent_view(m)),
            ),
            infos@.len() == i,
            forall|k: int| 0 <= k < infos@.len() ==> (#[trigger] infos@[k]).src_ip is Some && infos@[k].measurement_id
                is None,
        decreases pieces@.len() - i,
    {
        proof {
            assert(ps.subrange(0, i + 1).drop_last() =~= ps.subrange(0, i as int));
            assert(ps.subrange(0, i + 1).last() == pieces@[i as int]@);
        }
        match parse_agent(pieces[i].as_str()) {
            Err(e) => {
                proof {
                    assert(agents_of(ps.subrange(0, i + 1)) == Err::<Seq<(Seq<char>, Seq<char>)>, ClientArgsError>(e));
                    lemma_agent_error_persists(ps, i + 1);
                }
                return Err(e);
            },
            Ok(m) => {
                let ghost before = infos@;
                infos.push(m);
                assert(infos@.map_values(|x: MeasurementInfo| agent_view(x)) =~= before.map_values(
                    |x: MeasurementInfo| agent_view(x),
                ).push(agent_view(m)));
            },
        }
        i = i + 1;
    }
    assert(ps.subrange(0, i as int) =~= ps);
    if infos.len() == 0 {
        proof {
            lemma_index_from_bounds(t@, ',', 0);
            assert(split_from(t@, ',', 0).len() > 0);
        }
        return Err(ClientArgsError::NoAgents);
    }
    Ok(ClientConfig { measurement_infos: infos, probes_file })
}

proof fn lemma_agent_error_persists(ps: Seq<Seq<char>>, k: int)
    requires
        0 <= k <= ps.len(),
        agents_of(ps.subrange(0, k)) is Err,
    ensures
        agents_of(ps) == agents_of(ps.subrange(0, k)),
    decreases ps.len() - k,
{
    if k == ps.len() {
        assert(ps.subrange(0, k) =~= ps);
    } else {
        assert(ps.subrange(0, k + 1).drop_last() =~= ps.subrange(0, k));
        lemma_agent_error_persists(ps, k + 1);
    }
}

impl ClientConfig {
    /// The same settings with every agent's measurement id set to
    /// `measurement_id`.
    pub fn with_measurement_tracking(self, measurement_id: Option<String>) -> (r: ClientConfig)
        ensures
            r.measurement_infos@.len() == self.measurement_infos@.len(),
            forall|i: int| 0 <= i < r.measurement_infos@.len() ==> {
                &&& (#[trigger] r.measurement_infos@[i]).name == self.measurement_infos@[i].name
                &&& r.measurement_infos@[i].src_ip == self.measurement_infos@[i].src_ip
                &&& r.measurement_infos@[i].measurement_id == measurement_id
            },
            r.probes_file == self.probes_file,
    {
        let ClientConfig { measurement_infos, probes_file } = self;
        let mut out: Vec<MeasurementInfo> = Vec::new();
        let mut i: usize = 0;
        while i < measurement_infos.len()
            invariant
                i <= measurement_infos@.len(),
                out@.len() == i,
                forall|k: int| 0 <= k < i ==> {
                    &&& (#[trigger] out@[k]).name == measurement_infos@[k].name
                    &&& out@[k].src_ip == measurement_infos@[k].src_ip
                    &&& out@[k].measurement_id == measurement_id
                },
            decreases measurement_infos@.len() - i,
        {
            let m = &measurement_infos[i];
            out.push(
                MeasurementInfo {
                    name: m.name.clone(),
                    src_ip: crate::text::copy_opt_string(&m.src_ip),
                    measurement_id: crate::text::copy_opt_string(&measurement_id),
                },
            );
            i = i + 1;
        }
        ClientConfig { measurement_infos: out, probes_file }
    }
}

} // verus!
