use vstd::prelude::*;

verus! {

/// An IP network as the agents table stores it: an address and the length
/// of its network prefix.
#[allow(inconsistent_fields)]
#[derive(Debug, Clone, PartialEq, Eq)]
pub enum IpNet {
    V4 { addr: [u8; 4], prefix: u8 },
    V6 { addr: [u8; 16], prefix: u8 },
}

impl IpNet {
    /// The prefix fits the address family.
    pub open spec fn wf(self) -> bool {
        match self {
            IpNet::V4 { prefix, .. } => prefix <= 32,
            IpNet::V6 { prefix, .. } => prefix <= 128,
        }
    }

    /// The network is a single host: its prefix covers the whole address.
    pub open spec fn is_host(self) -> bool {
        match self {
            IpNet::V4 { prefix, .. } => prefix == 32,
            IpNet::V6 { prefix, .. } => prefix == 128,
        }
    }
}

/// What `ipnetwork` makes of a text in CIDR notation (`None` where it
/// refuses the text).
pub uninterp spec fn ip_network_from_str(s: Seq<char>) -> Option<IpNet>;

/// Parses `s` with `<ipnetwork::IpNetwork as FromStr>::from_str` and keeps
/// the address octets and the prefix. The result is `ip_network_from_str`
/// of the text; its prefix never exceeds the address width, and a text
/// without `/` gives a single host (full-width prefix).
#[verifier::external_body]
pub(crate) fn parse_ip_network(s: &str) -> (r: Option<IpNet>)
    ensures
        r == ip_network_from_str(s@),
        r matches Some(n) ==> n.wf(),
        r matches Some(n) ==> (!s@.contains('/') ==> n.is_host()),
{
    match s.parse::<ipnetwork::IpNetwork>() {
        Ok(ipnetwork::IpNetwork::V4(n)) => Some(IpNet::V4 { addr: n.ip().octets(), prefix: n.prefix() }),
        Ok(ipnetwork::IpNetwork::V6(n)) => Some(IpNet::V6 { addr: n.ip().octets(), prefix: n.prefix() }),
        Err(_) => None,
    }
}

/// The bytes of a random (version 4, RFC 4122 variant) UUID: the high
/// nibble of byte 6 is 4 and the two high bits of byte 8 are `10`.
pub open spec fn is_random_uuid(b: Seq<u8>) -> bool {
    &&& b.len() == 16
    &&& b[6] / 16 == 4
    &&& b[8] / 64 == 2
}

/// Draws a fresh UUID with `uuid::Uuid::new_v4` and returns its bytes.
/// The bytes are random; the contract claims only the version and variant
/// bits that `Uuid::from_random_bytes` sets.
#[verifier::external_body]
pub(crate) fn random_uuid() -> (u: [u8; 16])
    ensures
        is_random_uuid(u@),
{
    *uuid::Uuid::new_v4().as_bytes()
}

/// An agent about to be stored; the hostname is borrowed from the request.
#[derive(Debug, Clone, PartialEq, Eq)]
pub struct NewAgent<'a> {
    pub uuid: [u8; 16],
    pub hostname: &'a str,
    pub ip: IpNet,
}

/// A stored agent.
#[derive(Debug, Clone, PartialEq, Eq)]
pub struct Agent {
    pub id: i32,
    pub uuid: [u8; 16],
    pub hostname: String,
    pub ip: IpNet,
}

} // verus!
