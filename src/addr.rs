//! Socket addresses as plain values, and the choice of the IPv6 interface
//! that discovery runs on.
use vstd::prelude::*;

verus! {

/// The default discovery port.
pub const DEFAULT_MULTICAST_PORT: u16 = 27056;

/// The default IPv4 discovery group, 224.0.0.83.
pub const DEFAULT_MULTICAST_V4: u32 = 0xe000_0053;

/// The default IPv6 discovery group, ff02::686f:6970.
pub const DEFAULT_MULTICAST_V6: u128 = 0xff02_0000_0000_0000_0000_0000_686f_6970;

/// An IP address: IPv4 as its 32 bits, IPv6 as its 128 bits, most
/// significant first.
#[derive(Clone, Copy, Debug, PartialEq, Eq, Structural)]
pub enum IpAddress {
    V4(u32),
    V6(u128),
}

/// An IP address, a port and, for IPv6, the scope (interface index);
/// IPv4 addresses carry scope zero.
#[derive(Clone, Copy, Debug, PartialEq, Eq, Structural)]
pub struct SocketAddress {
    pub ip: IpAddress,
    pub port: u16,
    pub scope_id: u32,
}

impl IpAddress {
    /// Whether this is the all-zero address of its family.
    pub fn is_unspecified(&self) -> (r: bool)
        ensures
            r == (*self == IpAddress::V4(0) || *self == IpAddress::V6(0)),
    {
        match self {
            IpAddress::V4(a) => *a == 0,
            IpAddress::V6(a) => *a == 0,
        }
    }
}

impl SocketAddress {
    /// Whether the address is IPv4.
    pub fn is_ipv4(&self) -> (r: bool)
        ensures
            r == self.ip is V4,
    {
        match self.ip {
            IpAddress::V4(_) => true,
            IpAddress::V6(_) => false,
        }
    }

    /// Whether the address is IPv6.
    pub fn is_ipv6(&self) -> (r: bool)
        ensures
            r == self.ip is V6,
    {
        !self.is_ipv4()
    }
}

/// The addresses of one network interface.
#[derive(Debug)]
pub struct Interface {
    pub index: u32,
    pub ipv6: Vec<u128>,
}

/// Whether the interface table must be read to choose the scope of `bind`:
/// no interface name was given, and `bind` is IPv6 without a scope.
pub fn needs_interface_table(bind: &SocketAddress, ifname_given: bool) -> (r: bool)
    ensures
        r == (!ifname_given && bind.ip is V6 && bind.scope_id == 0),
{
    !ifname_given && bind.is_ipv6() && bind.scope_id == 0
}

/// The index of the first interface that holds `ip` among its IPv6
/// addresses.
pub open spec fn first_interface_with(interfaces: Seq<Interface>, ip: u128) -> Option<u32>
    decreases interfaces.len(),
{
    if interfaces.len() == 0 {
        None
    } else if interfaces[0].ipv6@.contains(ip) {
        Some(interfaces[0].index)
    } else {
        first_interface_with(interfaces.drop_first(), ip)
    }
}

/// The scope that discovery uses for `bind`: the index of the named
/// interface where a name was given; else the scope of `bind` where it is
/// IPv6 with a nonzero scope; else the first interface that holds its
/// address; else zero, which lets the system choose.
pub open spec fn scope_for(bind: SocketAddress, ifname_index: Option<u32>, interfaces: Seq<Interface>) -> u32 {
    match ifname_index {
        Some(i) => i,
        None => match bind.ip {
            IpAddress::V4(_) => 0,
            IpAddress::V6(ip) => if bind.scope_id != 0 {
                bind.scope_id
            } else {
                match first_interface_with(interfaces, ip) {
                    Some(i) => i,
                    None => 0,
                }
            },
        },
    }
}

fn find_interface(interfaces: &Vec<Interface>, ip: u128) -> (r: Option<u32>)
    ensures
        r == first_interface_with(interfaces@, ip),
{
    let mut i: usize = 0;
    assert(interfaces@.skip(0) =~= interfaces@);
    while i < interfaces.len()
        invariant
            i <= interfaces@.len(),
            first_interface_with(interfaces@, ip) == first_interface_with(
                interfaces@.skip(i as int),
                ip,
            ),
        decreases interfaces@.len() - i,
    {
        let iface = &interfaces[i];
        let mut j: usize = 0;
        let mut found = false;
        while j < iface.ipv6.len()
            invariant
                j <= iface.ipv6@.len(),
                found == exists|k: int| 0 <= k < j && iface.ipv6@[k] == ip,
            decreases iface.ipv6@.len() - j,
        {
            if iface.ipv6[j] == ip {
                found = true;
            }
            j += 1;
        }
        assert(interfaces@.skip(i as int)[0] == interfaces@[i as int]);
        if found {
            return Some(iface.index);
        }
        assert(interfaces@.skip(i as int).drop_first() =~= interfaces@.skip(i + 1));
        i += 1;
    }
    None
}

/// Chooses the scope (interface index) that discovery uses for `bind`.
/// `ifname_index` is the index of the interface named by the user, if one
/// was; `interfaces` is the system's interface table, read where
/// `needs_interface_table` says so.
pub fn guess_iface(bind: &SocketAddress, ifname_index: Option<u32>, interfaces: &Vec<Interface>) -> (r: u32)
    ensures
        r == scope_for(*bind, ifname_index, interfaces@),
{
    match ifname_index {
        Some(i) => i,
        None => match bind.ip {
            IpAddress::V4(_) => 0,
            IpAddress::V6(ip) => {
                if bind.scope_id != 0 {
                    bind.scope_id
                } else {
                    match find_interface(interfaces, ip) {
                        Some(i) => i,
                        None => 0,
                    }
                }
            },
        },
    }
}

/// Where `socket_to_fix` is IPv6: gives it the scope `iface`, and where
/// `force_v6` is set, or `socket_to_fix` has a specified address while the
/// multicast address is IPv4, moves discovery to the default IPv6 group on
/// the same port and scope. An IPv4 `socket_to_fix` changes nothing.
pub fn fix_socket_addr_iface(
    socket_to_fix: &mut SocketAddress,
    discovery_multicast: &mut SocketAddress,
    iface: u32,
    force_v6: bool,
)
    ensures
        old(socket_to_fix).ip is V4 ==> *final(socket_to_fix) == *old(socket_to_fix)
            && *final(discovery_multicast) == *old(discovery_multicast),
        old(socket_to_fix).ip is V6 ==> *final(socket_to_fix) == (SocketAddress {
            scope_id: iface,
            ..*old(socket_to_fix)
        }),
        old(socket_to_fix).ip is V6 && (force_v6 || (old(socket_to_fix).ip != IpAddress::V6(0)
            && old(discovery_multicast).ip is V4)) ==> *final(discovery_multicast) == (SocketAddress {
            ip: IpAddress::V6(DEFAULT_MULTICAST_V6),
            port: old(discovery_multicast).port,
            scope_id: iface,
        }),
        old(socket_to_fix).ip is V6 && !(force_v6 || (old(socket_to_fix).ip != IpAddress::V6(0)
            && old(discovery_multicast).ip is V4)) ==> *final(discovery_multicast) == *old(
            discovery_multicast,
        ),
{
    if socket_to_fix.is_ipv6() {
        socket_to_fix.scope_id = iface;
        if force_v6 || !socket_to_fix.ip.is_unspecified() && discovery_multicast.is_ipv4() {
            *discovery_multicast = SocketAddress {
                ip: IpAddress::V6(DEFAULT_MULTICAST_V6),
                port: discovery_multicast.port,
                scope_id: iface,
            };
        }
    }
}

} // verus!
