//! Rules from `ipnet` networks. What is said here of `ipnet` is taken on
//! trust from its source; everything built on it is proved.

use vstd::prelude::*;
use ipnet::Ipv4Net;
use crate::flow::{Action, Flow, NetworkPrefix};
use crate::mask::MAX_PREFIX_LEN;
use crate::octets::{as_u32_be, octets_value};

verus! {

/// `ipnet::Ipv4Net`, an address with a prefix length. Verus sees nothing inside it.
#[verifier::external_type_specification]
#[verifier::external_body]
pub struct ExIpv4Net(Ipv4Net);

/// The four octets of the address that `Ipv4Net::addr` returns, first octet first.
pub uninterp spec fn net_octets(net: Ipv4Net) -> Seq<u8>;

/// The prefix length that `Ipv4Net::prefix_len` returns.
pub uninterp spec fn net_prefix_len(net: Ipv4Net) -> u8;

/// Calls `Ipv4Net::addr` and hands its octets on. Trusted: the result is the
/// address of the network as it was given, host bits included.
#[verifier::external_body]
fn addr_octets(net: &Ipv4Net) -> (octets: [u8; 4])
    ensures
        octets@ == net_octets(*net),
{
    net.addr().octets()
}

/// Calls `Ipv4Net::prefix_len`. Trusted: the result is the network's prefix
/// length, and it is at most 32, since every constructor of `Ipv4Net`
/// refuses a longer one.
#[verifier::external_body]
fn prefix_len_of(net: &Ipv4Net) -> (len: u8)
    ensures
        len == net_prefix_len(*net),
        len <= MAX_PREFIX_LEN,
{
    net.prefix_len()
}

/// The prefix that a network stands for.
pub open spec fn prefix_of(net: Ipv4Net) -> NetworkPrefix {
    NetworkPrefix { addr: octets_value(net_octets(net)), prefix_len: net_prefix_len(net) }
}

/// Reads the address and the prefix length of a network.
pub fn network_prefix(net: &Ipv4Net) -> (prefix: NetworkPrefix)
    ensures
        prefix == prefix_of(*net),
        prefix.valid(),
{
    NetworkPrefix { addr: as_u32_be(&addr_octets(net)), prefix_len: prefix_len_of(net) }
}

impl Flow {
    /// A rule between two networks. Port 0 stands for any port.
    pub fn new(
        src_net: Ipv4Net,
        src_port: u16,
        dst_net: Ipv4Net,
        dst_port: u16,
        action: Action,
    ) -> (flow: Flow)
        ensures
            flow == (Flow {
                src: prefix_of(src_net),
                src_port,
                dst: prefix_of(dst_net),
                dst_port,
                action,
            }),
            flow.valid(),
    {
        Flow {
            src: network_prefix(&src_net),
            src_port,
            dst: network_prefix(&dst_net),
            dst_port,
            action,
        }
    }
}

} // verus!
