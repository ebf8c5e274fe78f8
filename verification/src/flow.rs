//! The values the engine works on: rules, actions and packets.

use vstd::prelude::*;
use crate::mask::{net_mask, MAX_PREFIX_LEN};
use crate::octets::{as_u32_be, octets_value};

verus! {

/// The port pattern that matches every port. A rule therefore cannot ask
/// for port 0 alone: port 0 in a rule always means "any port".
pub const WILDCARD_PORT: u16 = 0;

/// What a rule does with the packets it wins.
#[derive(Debug, PartialEq, Eq, Hash)]
pub enum Action {
    Deny,
    Allow(String),
}

impl Clone for Action {
    fn clone(&self) -> (copy: Action)
        ensures
            copy == *self,
    {
        match self {
            Action::Deny => Action::Deny,
            Action::Allow(label) => Action::Allow(label.clone()),
        }
    }
}

/// An IPv4 address with a prefix length: a contiguous range of addresses.
#[derive(Debug, Clone, Copy, PartialEq, Eq, Hash)]
pub struct NetworkPrefix {
    pub addr: u32,
    pub prefix_len: u8,
}

impl NetworkPrefix {
    /// Whether the prefix length fits an IPv4 address.
    pub open spec fn valid(self) -> bool {
        self.prefix_len <= MAX_PREFIX_LEN
    }

    /// The address with its host bits cleared.
    pub open spec fn network(self) -> u32 {
        self.addr & net_mask(self.prefix_len)
    }

    /// Whether `ip` lies in the range of this prefix.
    pub open spec fn contains(self, ip: u32) -> bool {
        ip & net_mask(self.prefix_len) == self.network()
    }
}

/// One access-control rule.
#[derive(Debug, PartialEq, Eq, Hash)]
pub struct Flow {
    pub src: NetworkPrefix,
    pub src_port: u16,
    pub dst: NetworkPrefix,
    pub dst_port: u16,
    pub action: Action,
}

impl Clone for Flow {
    fn clone(&self) -> (copy: Flow)
        ensures
            copy == *self,
    {
        Flow {
            src: self.src,
            src_port: self.src_port,
            dst: self.dst,
            dst_port: self.dst_port,
            action: self.action.clone(),
        }
    }
}

/// A fully resolved packet descriptor.
#[derive(Debug, Clone, Copy, PartialEq, Eq, Hash)]
pub struct Packet {
    pub src_ip: u32,
    pub dst_ip: u32,
    pub src_port: u16,
    pub dst_port: u16,
}

impl Packet {
    /// A packet from its two addresses, each as four octets in network
    /// order, and its two ports.
    pub fn new(src_ip: [u8; 4], src_port: u16, dst_ip: [u8; 4], dst_port: u16) -> (packet: Packet)
        ensures
            packet == (Packet {
                src_ip: octets_value(src_ip@),
                dst_ip: octets_value(dst_ip@),
                src_port,
                dst_port,
            }),
    {
        Packet { src_ip: as_u32_be(&src_ip), src_port, dst_ip: as_u32_be(&dst_ip), dst_port }
    }
}

/// Why a rule was refused.
#[derive(Debug, Clone, Copy, PartialEq, Eq)]
pub enum ValidationError {
    /// The source prefix is longer than 32 bits.
    SourcePrefixLen(u8),
    /// The destination prefix is longer than 32 bits.
    DestinationPrefixLen(u8),
}

/// Whether a port pattern admits a port.
pub open spec fn port_matches(pattern: u16, port: u16) -> bool {
    pattern == WILDCARD_PORT || pattern == port
}

impl Flow {
    /// Whether both prefixes have a length that fits an IPv4 address.
    pub open spec fn valid(self) -> bool {
        self.src.valid() && self.dst.valid()
    }

    /// What validation says of the rule: the source prefix is judged first.
    pub open spec fn validation(self) -> Result<(), ValidationError> {
        if self.src.prefix_len > MAX_PREFIX_LEN {
            Err(ValidationError::SourcePrefixLen(self.src.prefix_len))
        } else if self.dst.prefix_len > MAX_PREFIX_LEN {
            Err(ValidationError::DestinationPrefixLen(self.dst.prefix_len))
        } else {
            Ok(())
        }
    }

    /// Checks that both prefix lengths are at most 32.
    pub fn validate(&self) -> (checked: Result<(), ValidationError>)
        ensures
            checked == self.validation(),
            checked is Ok <==> self.valid(),
    {
        if self.src.prefix_len > MAX_PREFIX_LEN {
            Err(ValidationError::SourcePrefixLen(self.src.prefix_len))
        } else if self.dst.prefix_len > MAX_PREFIX_LEN {
            Err(ValidationError::DestinationPrefixLen(self.dst.prefix_len))
        } else {
            Ok(())
        }
    }

    /// Whether the rule's prefixes and port patterns admit the packet.
    pub open spec fn covers(self, packet: Packet) -> bool {
        &&& self.src.contains(packet.src_ip)
        &&& self.dst.contains(packet.dst_ip)
        &&& port_matches(self.src_port, packet.src_port)
        &&& port_matches(self.dst_port, packet.dst_port)
    }
}

} // verus!
