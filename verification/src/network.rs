//! IP addresses and CIDR networks.

use vstd::arithmetic::div_mod::{
    lemma_fundamental_div_mod, lemma_fundamental_div_mod_converse,
};
use vstd::arithmetic::power2::{lemma_pow2_pos, pow2};
use vstd::prelude::*;

use crate::error::{denied_with, seen, ProxyError, Refusal};

verus! {

/// An IP address, as the number that its bytes spell in network order.
#[derive(Clone, Copy, Debug)]
pub enum IpAddress {
    /// An IPv4 address.
    V4(u32),
    /// An IPv6 address.
    V6(u128),
}

/// A CIDR network: an address in it, then the number of leading bits that its addresses share.
#[derive(Clone, Copy, Debug)]
pub enum IpNetwork {
    /// An IPv4 network.
    V4(u32, u8),
    /// An IPv6 network.
    V6(u128, u8),
}

/// The error of parsing a network.
#[verifier::external_type_specification]
#[verifier::external_body]
pub struct ExAddrParseError(ipnet::AddrParseError);

/// The network that a CIDR text denotes, if it is one.
pub uninterp spec fn parsed_network(text: Seq<char>) -> Option<IpNetwork>;

/// Whether two numbers of `width` bits agree in their leading `prefix_len` bits.
pub open spec fn same_prefix(a: nat, b: nat, width: nat, prefix_len: nat) -> bool {
    a / pow2((width - prefix_len) as nat) == b / pow2((width - prefix_len) as nat)
}

impl IpNetwork {
    /// Whether the prefix is no longer than an address.
    pub open spec fn wf(self) -> bool {
        match self {
            IpNetwork::V4(_, prefix_len) => prefix_len <= 32,
            IpNetwork::V6(_, prefix_len) => prefix_len <= 128,
        }
    }

    /// Whether `address` is of the network's family and shares its prefix.
    pub open spec fn has(self, address: IpAddress) -> bool {
        match (self, address) {
            (IpNetwork::V4(base, prefix_len), IpAddress::V4(a)) => same_prefix(
                base as nat,
                a as nat,
                32,
                prefix_len as nat,
            ),
            (IpNetwork::V6(base, prefix_len), IpAddress::V6(a)) => same_prefix(
                base as nat,
                a as nat,
                128,
                prefix_len as nat,
            ),
            _ => false,
        }
    }
}

/// Calls `ipnet::IpNet::from_str`. What it makes of a text is a function of the text; a prefix length
/// that it accepts is no longer than an address.
#[verifier::external_body]
fn parse_network(text: &str) -> (network: Result<IpNetwork, ipnet::AddrParseError>)
    ensures
        network is Ok <==> parsed_network(text@) is Some,
        network matches Ok(n) ==> parsed_network(text@) == Some(n),
        network matches Ok(n) ==> n.wf(),
{
    text.parse::<ipnet::IpNet>().map(
        |network|
            match network {
                ipnet::IpNet::V4(net) => IpNetwork::V4(net.addr().into(), net.prefix_len()),
                ipnet::IpNet::V6(net) => IpNetwork::V6(net.addr().into(), net.prefix_len()),
            },
    )
}

/// Calls `Display` of `ipnet::AddrParseError`, which writes one fixed text.
#[verifier::external_body]
fn addr_parse_error_text(error: &ipnet::AddrParseError) -> (text: String)
    ensures
        text@ == "invalid IP address syntax"@,
{
    error.to_string()
}

/// Calls `ipnet::IpNet::contains`: an address of the same family lies in the network exactly if it
/// shares the network's prefix, and one of the other family does not.
#[verifier::external_body]
fn network_contains(network: IpNetwork, address: IpAddress) -> (inside: bool)
    requires
        network.wf(),
    ensures
        inside == network.has(address),
{
    let (base, prefix_len) = match network {
        IpNetwork::V4(base, prefix_len) => (base.to_be_bytes().into(), prefix_len),
        IpNetwork::V6(base, prefix_len) => (base.to_be_bytes().into(), prefix_len),
    };
    let host = match address {
        IpAddress::V4(a) => ipnet::IpNet::new(a.to_be_bytes().into(), 0),
        IpAddress::V6(a) => ipnet::IpNet::new(a.to_be_bytes().into(), 0),
    };
    ipnet::IpNet::new(base, prefix_len).unwrap().contains(&host.unwrap().addr())
}

/// What a CIDR entry that denotes `network` says of `address`.
pub open spec fn network_decision(network: Option<IpNetwork>, address: IpAddress) -> Result<
    bool,
    Refusal,
> {
    match network {
        Some(net) => Ok(net.has(address)),
        None => Err(
            Refusal::Denied("invalid actor egress CIDR: "@ + "invalid IP address syntax"@),
        ),
    }
}

/// Decides on `address` by the parsed form of a CIDR entry.
pub fn decide_network(
    network: Result<IpNetwork, ipnet::AddrParseError>,
    address: IpAddress,
) -> (inside: Result<bool, ProxyError>)
    requires
        network matches Ok(net) ==> net.wf(),
    ensures
        seen(inside) == network_decision(network.ok(), address),
{
    match network {
        Ok(net) => Ok(network_contains(net, address)),
        Err(error) => Err(
            denied_with("invalid actor egress CIDR: ", addr_parse_error_text(&error).as_str()),
        ),
    }
}

/// Decides on `address` by a CIDR entry.
pub fn decide_cidr(cidr: &str, address: IpAddress) -> (inside: Result<bool, ProxyError>)
    ensures
        seen(inside) == network_decision(parsed_network(cidr@), address),
{
    decide_network(parse_network(cidr), address)
}

/// A network is a block of consecutive addresses: those of its family from the first one that shares
/// its prefix, as many as the bits behind the prefix can count.
pub proof fn law_network_is_a_block(base: nat, a: nat, width: nat, prefix_len: nat)
    requires
        prefix_len <= width,
    ensures
        ({
            let size = pow2((width - prefix_len) as nat);
            let first = (base / size) * size;
            same_prefix(base, a, width, prefix_len) <==> first <= a < first + size
        }),
{
    let size = pow2((width - prefix_len) as nat);
    lemma_pow2_pos((width - prefix_len) as nat);
    let q = base / size;
    lemma_fundamental_div_mod(a as int, size as int);
    if q * size <= a < q * size + size {
        assert(a == q * size + (a - q * size));
        lemma_fundamental_div_mod_converse(a as int, size as int, q as int, a - q * size);
    }
    if a / size == q {
        assert(size * q == q * size) by (nonlinear_arith);
    }
}

/// A network decides by its block alone. An address of its family is in exactly if it is no less than
/// the first address that shares the prefix, and less than that by the size of the block; an address of
/// the other family is out. What is no network is denied, whatever the address.
pub proof fn law_networks_decide_by_block(
    network: Result<IpNetwork, ipnet::AddrParseError>,
    address: IpAddress,
    inside: Result<bool, ProxyError>,
)
    requires
        network matches Ok(IpNetwork::V4(_, prefix_len)) ==> prefix_len <= 32,
        network matches Ok(IpNetwork::V6(_, prefix_len)) ==> prefix_len <= 128,
        call_ensures(decide_network, (network, address), inside),
    ensures
        match (network, address) {
            (Ok(IpNetwork::V4(base, prefix_len)), IpAddress::V4(a)) => {
                let size = pow2((32 - prefix_len) as nat);
                let first = (base as nat / size) * size;
                inside is Ok && (inside->Ok_0 <==> first <= a < first + size)
            },
            (Ok(IpNetwork::V6(base, prefix_len)), IpAddress::V6(a)) => {
                let size = pow2((128 - prefix_len) as nat);
                let first = (base as nat / size) * size;
                inside is Ok && (inside->Ok_0 <==> first <= a < first + size)
            },
            (Ok(_), _) => inside is Ok && !inside->Ok_0,
            (Err(_), _) => inside matches Err(ProxyError::SubstrateEgressDenied(message))
                && message@ == "invalid actor egress CIDR: "@ + "invalid IP address syntax"@,
        },
{
    match (network, address) {
        (Ok(IpNetwork::V4(base, prefix_len)), IpAddress::V4(a)) => {
            law_network_is_a_block(base as nat, a as nat, 32, prefix_len as nat);
        },
        (Ok(IpNetwork::V6(base, prefix_len)), IpAddress::V6(a)) => {
            law_network_is_a_block(base as nat, a as nat, 128, prefix_len as nat);
        },
        _ => {},
    }
}

/// The same of the network that a text denotes, which is what the CIDR parser makes of it.
pub proof fn law_cidrs_decide_by_block(
    cidr: &str,
    address: IpAddress,
    inside: Result<bool, ProxyError>,
)
    requires
        call_ensures(decide_cidr, (cidr, address), inside),
    ensures
        match (parsed_network(cidr@), address) {
            (Some(IpNetwork::V4(base, prefix_len)), IpAddress::V4(a)) => prefix_len <= 32 ==> {
                let size = pow2((32 - prefix_len) as nat);
                let first = (base as nat / size) * size;
                inside is Ok && (inside->Ok_0 <==> first <= a < first + size)
            },
            (Some(IpNetwork::V6(base, prefix_len)), IpAddress::V6(a)) => prefix_len <= 128 ==> {
                let size = pow2((128 - prefix_len) as nat);
                let first = (base as nat / size) * size;
                inside is Ok && (inside->Ok_0 <==> first <= a < first + size)
            },
            (Some(_), _) => inside is Ok && !inside->Ok_0,
            (None, _) => inside matches Err(ProxyError::SubstrateEgressDenied(message))
                && message@ == "invalid actor egress CIDR: "@ + "invalid IP address syntax"@,
        },
{
    law_network_decisions(parsed_network(cidr@), address);
}

/// What an entry says of an address, by the network that it denotes: whether the address is in the
/// block, or, where it denotes none, that the request is denied.
pub proof fn law_network_decisions(network: Option<IpNetwork>, address: IpAddress)
    ensures
        match (network, address) {
            (Some(IpNetwork::V4(base, prefix_len)), IpAddress::V4(a)) => prefix_len <= 32 ==> {
                let size = pow2((32 - prefix_len) as nat);
                let first = (base as nat / size) * size;
                network_decision(network, address) == Ok::<bool, Refusal>(first <= a < first + size)
            },
            (Some(IpNetwork::V6(base, prefix_len)), IpAddress::V6(a)) => prefix_len <= 128 ==> {
                let size = pow2((128 - prefix_len) as nat);
                let first = (base as nat / size) * size;
                network_decision(network, address) == Ok::<bool, Refusal>(first <= a < first + size)
            },
            (Some(_), _) => network_decision(network, address) == Ok::<bool, Refusal>(false),
            (None, _) => network_decision(network, address) == Err::<bool, Refusal>(
                Refusal::Denied("invalid actor egress CIDR: "@ + "invalid IP address syntax"@),
            ),
        },
{
    match (network, address) {
        (Some(IpNetwork::V4(base, prefix_len)), IpAddress::V4(a)) => {
            if prefix_len <= 32 {
                law_network_is_a_block(base as nat, a as nat, 32, prefix_len as nat);
            }
        },
        (Some(IpNetwork::V6(base, prefix_len)), IpAddress::V6(a)) => {
            if prefix_len <= 128 {
                law_network_is_a_block(base as nat, a as nat, 128, prefix_len as nat);
            }
        },
        _ => {},
    }
}

} // verus!
