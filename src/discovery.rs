//! Link-local peer discovery: which socket to bind and which group to join,
//! and what to make of each datagram.
use vstd::prelude::*;

pub mod crc;
pub mod packet;

use crate::addr::{IpAddress, SocketAddress};
use packet::{lemma_packet_parse_exact, packet_bytes, parse_packet, Packet};

verus! {

/// Why discovery cannot be set up.
#[derive(Clone, Copy, Debug, PartialEq, Eq, Structural)]
pub enum DiscoveryError {
    /// The multicast group is IPv6 but the bind address is IPv4.
    BindV4MulticastV6,
}

/// The multicast group to join, and on which interface.
#[derive(Clone, Copy, Debug, PartialEq, Eq, Structural)]
pub enum Membership {
    /// Join the IPv4 `group` on the interface with address `interface`.
    V4 { group: u32, interface: u32 },
    /// Join the IPv6 `group` on the interface with index `interface`.
    V6 { group: u128, interface: u32 },
}

/// How discovery runs: the local address, the socket to bind, the group to
/// join, and where requests and advertisements go.
#[derive(Clone, Copy, Debug, PartialEq, Eq, Structural)]
pub struct DiscoveryPlan {
    /// The local address; its port is the one that replies announce.
    pub bind: SocketAddress,
    /// The address the UDP socket binds: the bind address on the multicast port.
    pub socket: SocketAddress,
    pub membership: Membership,
    /// The multicast destination; for IPv6 it carries the bind scope.
    pub multicast: SocketAddress,
}

/// The plan for `discovery_multicast` and `bind_addr`, or why there is none.
pub open spec fn plan_for(discovery_multicast: SocketAddress, bind_addr: SocketAddress) -> Result<
    DiscoveryPlan,
    DiscoveryError,
> {
    let socket = SocketAddress { port: discovery_multicast.port, ..bind_addr };
    match discovery_multicast.ip {
        IpAddress::V4(group) => Ok(
            DiscoveryPlan {
                bind: bind_addr,
                socket,
                membership: Membership::V4 {
                    group,
                    interface: match bind_addr.ip {
                        IpAddress::V4(a) => a,
                        IpAddress::V6(_) => 0,
                    },
                },
                multicast: discovery_multicast,
            },
        ),
        IpAddress::V6(group) => match bind_addr.ip {
            IpAddress::V4(_) => Err(DiscoveryError::BindV4MulticastV6),
            IpAddress::V6(_) => Ok(
                DiscoveryPlan {
                    bind: bind_addr,
                    socket,
                    membership: Membership::V6 { group, interface: bind_addr.scope_id },
                    multicast: SocketAddress {
                        scope_id: bind_addr.scope_id,
                        ..discovery_multicast
                    },
                },
            ),
        },
    }
}

impl DiscoveryPlan {
    /// Plans discovery on `discovery_multicast` from `bind_addr`.
    pub fn new(discovery_multicast: SocketAddress, bind_addr: SocketAddress) -> (r: Result<
        DiscoveryPlan,
        DiscoveryError,
    >)
        ensures
            r == plan_for(discovery_multicast, bind_addr),
    {
        let socket = SocketAddress { port: discovery_multicast.port, ..bind_addr };
        match discovery_multicast.ip {
            IpAddress::V4(group) => {
                let interface = match bind_addr.ip {
                    IpAddress::V4(a) => a,
                    IpAddress::V6(_) => 0,
                };
                Ok(
                    DiscoveryPlan {
                        bind: bind_addr,
                        socket,
                        membership: Membership::V4 { group, interface },
                        multicast: discovery_multicast,
                    },
                )
            },
            IpAddress::V6(group) => match bind_addr.ip {
                IpAddress::V4(_) => Err(DiscoveryError::BindV4MulticastV6),
                IpAddress::V6(_) => Ok(
                    DiscoveryPlan {
                        bind: bind_addr,
                        socket,
                        membership: Membership::V6 { group, interface: bind_addr.scope_id },
                        multicast: SocketAddress {
                            scope_id: bind_addr.scope_id,
                            ..discovery_multicast
                        },
                    },
                ),
            },
        }
    }

    /// The packet that announces this host, and where it goes.
    pub fn advertisement(&self) -> (r: (Packet, SocketAddress))
        ensures
            r.0@ == packet_bytes(self.bind.port),
            r.0.port == self.bind.port,
            r.1 == self.multicast,
    {
        (Packet::new(self.bind.port), self.multicast)
    }

    /// The answer to a datagram `bytes` from `sender`: where it is exactly the
    /// request packet, this host's packet, sent to the sender's address on
    /// the multicast port; else nothing.
    pub fn reply_to(&self, sender: &SocketAddress, bytes: &[u8]) -> (r: Option<
        (Packet, SocketAddress),
    >)
        ensures
            bytes@ == packet_bytes(0) ==> (r matches Some((pkt, dest)) && pkt@
                == packet_bytes(self.bind.port) && pkt.port == self.bind.port && dest == (
            SocketAddress { ip: sender.ip, port: self.multicast.port, scope_id: 0 })),
            bytes@ != packet_bytes(0) ==> r is None,
    {
        proof {
            lemma_packet_parse_exact(bytes@, 0);
        }
        match Packet::try_from_bytes(bytes) {
            Some(p) => {
                if p.is_request() {
                    Some(
                        (
                            Packet::new(self.bind.port),
                            SocketAddress { ip: sender.ip, port: self.multicast.port, scope_id: 0 },
                        ),
                    )
                } else {
                    None
                }
            },
            None => None,
        }
    }

    /// The peer that a datagram `bytes` from `sender` announces: the sender's
    /// address with the announced port, where the datagram is a packet with a
    /// nonzero port. An IPv6 peer takes the multicast scope where the group is
    /// IPv6, else scope zero.
    pub fn peer_from(&self, sender: &SocketAddress, bytes: &[u8]) -> (r: Option<SocketAddress>)
        ensures
            match parse_packet(bytes@) {
                Some(port) => if port == 0 {
                    r is None
                } else {
                    r == Some(
                        SocketAddress {
                            ip: sender.ip,
                            port,
                            scope_id: if sender.ip is V6 && self.multicast.ip is V6 {
                                self.multicast.scope_id
                            } else {
                                0
                            },
                        },
                    )
                },
                None => r is None,
            },
    {
        match Packet::try_from_bytes(bytes) {
            Some(p) => {
                if p.port == 0 {
                    None
                } else {
                    let scope_id = if sender.is_ipv6() && self.multicast.is_ipv6() {
                        self.multicast.scope_id
                    } else {
                        0
                    };
                    Some(SocketAddress { ip: sender.ip, port: p.port, scope_id })
                }
            },
            None => None,
        }
    }
}

} // verus!
