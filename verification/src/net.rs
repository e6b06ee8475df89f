//! IP addresses and the networks that contain them.

use vstd::prelude::*;

verus! {

/// An IPv4 or IPv6 address, held as its number in network byte order.
#[derive(Clone, Copy, Debug, PartialEq, Eq, Structural)]
pub enum IpAddress {
    V4(u32),
    V6(u128),
}

/// An address and a port.
#[derive(Clone, Copy, Debug, PartialEq, Eq, Structural)]
pub struct SocketAddress {
    pub ip: IpAddress,
    pub port: u16,
}

/// A network in CIDR form: an address and the number of leading bits that
/// every member shares with it.
#[derive(Clone, Copy, Debug, PartialEq, Eq, Structural)]
pub struct Network {
    addr: IpAddress,
    prefix: u8,
}

/// Whether a prefix of the given length fits the address.
pub open spec fn prefix_fits(addr: IpAddress, prefix: u8) -> bool {
    match addr {
        IpAddress::V4(_) => prefix <= 32,
        IpAddress::V6(_) => prefix <= 128,
    }
}

/// Whether two IPv4 addresses agree in their first `prefix` bits.
pub open spec fn v4_shares_prefix(a: u32, b: u32, prefix: u8) -> bool {
    prefix == 0 || (a >> ((32 - prefix) as u32)) == (b >> ((32 - prefix) as u32))
}

/// Whether two IPv6 addresses agree in their first `prefix` bits.
pub open spec fn v6_shares_prefix(a: u128, b: u128, prefix: u8) -> bool {
    prefix == 0 || (a >> ((128 - prefix) as u128)) == (b >> ((128 - prefix) as u128))
}

impl IpAddress {
    /// Loopback addresses: `127.0.0.0/8` and `::1`.
    pub open spec fn loopback(self) -> bool {
        match self {
            IpAddress::V4(a) => 0x7f00_0000 <= a <= 0x7fff_ffff,
            IpAddress::V6(a) => a == 1,
        }
    }

    /// Private IPv4 ranges: `10.0.0.0/8`, `172.16.0.0/12`, `192.168.0.0/16`.
    pub open spec fn private_v4(self) -> bool {
        match self {
            IpAddress::V4(a) => {
                ||| 0x0a00_0000 <= a <= 0x0aff_ffff
                ||| 0xac10_0000 <= a <= 0xac1f_ffff
                ||| 0xc0a8_0000 <= a <= 0xc0a8_ffff
            },
            IpAddress::V6(_) => false,
        }
    }

    /// Whether the address is a loopback address.
    pub fn is_loopback(&self) -> (yes: bool)
        ensures
            yes == self.loopback(),
    {
        match *self {
            IpAddress::V4(a) => 0x7f00_0000 <= a && a <= 0x7fff_ffff,
            IpAddress::V6(a) => a == 1,
        }
    }

    /// Whether the address is in a private IPv4 range.
    pub fn is_private(&self) -> (yes: bool)
        ensures
            yes == self.private_v4(),
    {
        match *self {
            IpAddress::V4(a) => (0x0a00_0000 <= a && a <= 0x0aff_ffff) || (0xac10_0000 <= a && a
                <= 0xac1f_ffff) || (0xc0a8_0000 <= a && a <= 0xc0a8_ffff),
            IpAddress::V6(_) => false,
        }
    }
}

impl Network {
    #[verifier::type_invariant]
    spec fn inv(&self) -> bool {
        prefix_fits(self.addr, self.prefix)
    }

    /// The address that the network was written with.
    pub closed spec fn spec_addr(&self) -> IpAddress {
        self.addr
    }

    /// The number of leading bits that members share.
    pub closed spec fn spec_prefix(&self) -> u8 {
        self.prefix
    }

    /// Membership: the address is of the network's family and shares its
    /// first `prefix` bits.
    pub open spec fn holds(&self, ip: IpAddress) -> bool {
        match (self.spec_addr(), ip) {
            (IpAddress::V4(net), IpAddress::V4(a)) => v4_shares_prefix(net, a, self.spec_prefix()),
            (IpAddress::V6(net), IpAddress::V6(a)) => v6_shares_prefix(net, a, self.spec_prefix()),
            _ => false,
        }
    }

    /// The network of `addr` with the given prefix length, or `None` where
    /// the prefix is longer than the address.
    pub fn new(addr: IpAddress, prefix: u8) -> (res: Option<Network>)
        ensures
            res is Some <==> prefix_fits(addr, prefix),
            res matches Some(net) ==> net.spec_addr() == addr && net.spec_prefix() == prefix,
    {
        let fits = match addr {
            IpAddress::V4(_) => prefix <= 32,
            IpAddress::V6(_) => prefix <= 128,
        };
        if fits {
            Some(Network { addr, prefix })
        } else {
            None
        }
    }

    /// The address that the network was written with.
    #[verifier::when_used_as_spec(spec_addr)]
    pub fn addr(&self) -> (addr: IpAddress)
        ensures
            addr == self.spec_addr(),
    {
        self.addr
    }

    /// The number of leading bits that members share.
    #[verifier::when_used_as_spec(spec_prefix)]
    pub fn prefix(&self) -> (prefix: u8)
        ensures
            prefix == self.spec_prefix(),
            prefix_fits(self.spec_addr(), prefix),
    {
        proof {
            use_type_invariant(self);
        }
        self.prefix
    }

    /// Whether `ip` is in the network.
    pub fn contains(&self, ip: IpAddress) -> (yes: bool)
        ensures
            yes == self.holds(ip),
    {
        network_contains(self, ip)
    }
}

/// `ipnetwork::IpNetwork::contains` on the network built by
/// `IpNetwork::new`, which accepts every prefix that fits the address. The
/// source masks both addresses to the prefix and compares; an address of
/// the other family is never contained.
#[verifier::external_body]
fn network_contains(net: &Network, ip: IpAddress) -> (yes: bool)
    ensures
        yes == net.holds(ip),
{
    let built = match net.addr {
        IpAddress::V4(a) => ipnetwork::IpNetwork::new(a.to_be_bytes().into(), net.prefix),
        IpAddress::V6(a) => ipnetwork::IpNetwork::new(a.to_be_bytes().into(), net.prefix),
    };
    match (built, ip) {
        (Ok(n), IpAddress::V4(a)) => n.contains(a.to_be_bytes().into()),
        (Ok(n), IpAddress::V6(a)) => n.contains(a.to_be_bytes().into()),
        (Err(_), _) => false,
    }
}

} // verus!
