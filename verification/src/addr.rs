//! Addresses as the tunnel sees them: IP addresses by their octets, host
//! names as raw bytes, and ports.

use vstd::prelude::*;

verus! {

/// An IP address, held as its octets in network order.
#[derive(Clone, Copy, Debug, PartialEq, Eq, Hash)]
pub enum IpAddress {
    V4([u8; 4]),
    V6([u8; 16]),
}

/// The IPv4 address with the octets `s[0..4]`.
pub open spec fn ipv4_of(s: Seq<u8>) -> IpAddress {
    IpAddress::V4([s[0], s[1], s[2], s[3]])
}

/// The IPv6 address with the octets `s[0..16]`.
pub open spec fn ipv6_of(s: Seq<u8>) -> IpAddress {
    IpAddress::V6(
        [
            s[0],
            s[1],
            s[2],
            s[3],
            s[4],
            s[5],
            s[6],
            s[7],
            s[8],
            s[9],
            s[10],
            s[11],
            s[12],
            s[13],
            s[14],
            s[15],
        ],
    )
}

impl IpAddress {
    /// The octets of the address: four for IPv4, sixteen for IPv6.
    pub open spec fn octets(self) -> Seq<u8> {
        match self {
            IpAddress::V4(o) => o@,
            IpAddress::V6(o) => o@,
        }
    }

    /// The IPv4 address `a.b.c.d`.
    pub fn v4(a: u8, b: u8, c: u8, d: u8) -> (ip: IpAddress)
        ensures
            ip == IpAddress::V4([a, b, c, d]),
            ip.octets() == seq![a, b, c, d],
    {
        IpAddress::V4([a, b, c, d])
    }

    /// The IPv4 wildcard address `0.0.0.0`.
    pub fn unspecified() -> (ip: IpAddress)
        ensures
            ip == IpAddress::V4([0u8, 0u8, 0u8, 0u8]),
            ip.octets() == seq![0u8, 0u8, 0u8, 0u8],
    {
        IpAddress::V4([0, 0, 0, 0])
    }

    /// Whether the address is an IPv4 address.
    pub fn is_ipv4(&self) -> (r: bool)
        ensures
            r == (*self is V4),
    {
        match self {
            IpAddress::V4(_) => true,
            IpAddress::V6(_) => false,
        }
    }

    /// Whether two addresses are the same address.
    pub fn same(&self, other: &IpAddress) -> (r: bool)
        ensures
            r == (*self == *other),
    {
        match self {
            IpAddress::V4(a) => match other {
                IpAddress::V4(b) => {
                    let mut i: usize = 0;
                    while i < 4
                        invariant
                            i <= 4,
                            *self == IpAddress::V4(*a),
                            *other == IpAddress::V4(*b),
                            forall|j: int| 0 <= j < i ==> a@[j] == b@[j],
                        decreases 4 - i,
                    {
                        if a[i] != b[i] {
                            return false;
                        }
                        i += 1;
                    }
                    assert(*a =~= *b);
                    true
                },
                IpAddress::V6(_) => false,
            },
            IpAddress::V6(a) => match other {
                IpAddress::V4(_) => false,
                IpAddress::V6(b) => {
                    let mut i: usize = 0;
                    while i < 16
                        invariant
                            i <= 16,
                            *self == IpAddress::V6(*a),
                            *other == IpAddress::V6(*b),
                            forall|j: int| 0 <= j < i ==> a@[j] == b@[j],
                        decreases 16 - i,
                    {
                        if a[i] != b[i] {
                            return false;
                        }
                        i += 1;
                    }
                    assert(*a =~= *b);
                    true
                },
            },
        }
    }

    /// Reads an IPv4 address from the four bytes at `at`.
    pub(crate) fn read_v4(bytes: &[u8], at: usize) -> (ip: IpAddress)
        requires
            at + 4 <= bytes@.len(),
        ensures
            ip == ipv4_of(bytes@.skip(at as int)),
    {
        IpAddress::V4([bytes[at], bytes[at + 1], bytes[at + 2], bytes[at + 3]])
    }

    /// Reads an IPv6 address from the sixteen bytes at `at`.
    pub(crate) fn read_v6(bytes: &[u8], at: usize) -> (ip: IpAddress)
        requires
            at + 16 <= bytes@.len(),
        ensures
            ip == ipv6_of(bytes@.skip(at as int)),
    {
        let mut out: [u8; 16] = [0u8; 16];
        let n = bytes.len();
        let mut i: usize = 0;
        while i < 16
            invariant
                i <= 16,
                n == bytes@.len(),
                at + 16 <= n,
                forall|j: int| 0 <= j < i ==> out@[j] == bytes@[at + j],
            decreases 16 - i,
        {
            out[i] = bytes[at + i];
            i += 1;
        }
        assert(out =~= ipv6_of(bytes@.skip(at as int))->V6_0);
        IpAddress::V6(out)
    }
}

/// An IP address with a port: one end of a captured flow.
#[derive(Clone, Copy, Debug, PartialEq, Eq, Hash)]
pub struct Endpoint {
    pub ip: IpAddress,
    pub port: u16,
}

impl Endpoint {
    /// The endpoint `ip:port`.
    pub fn new(ip: IpAddress, port: u16) -> (e: Endpoint)
        ensures
            e == (Endpoint { ip, port }),
    {
        Endpoint { ip, port }
    }

    /// Whether two endpoints have the same address and the same port.
    pub fn same(&self, other: &Endpoint) -> (r: bool)
        ensures
            r == (*self == *other),
    {
        self.port == other.port && self.ip.same(&other.ip)
    }
}

/// The host part of a tunnel address: an IP address or a host name.
#[derive(Debug, PartialEq, Eq)]
pub enum Host {
    Ip(IpAddress),
    Domain(Vec<u8>),
}

/// What a [`Host`] stands for.
pub enum HostView {
    Ip(IpAddress),
    Domain(Seq<u8>),
}

impl View for Host {
    type V = HostView;

    open spec fn view(&self) -> HostView {
        match self {
            Host::Ip(ip) => HostView::Ip(*ip),
            Host::Domain(name) => HostView::Domain(name@),
        }
    }
}

impl Clone for Host {
    fn clone(&self) -> (copy: Host)
        ensures
            copy@ == self@,
    {
        match self {
            Host::Ip(ip) => Host::Ip(*ip),
            Host::Domain(name) => Host::Domain(name.clone()),
        }
    }
}

/// A destination as the tunnel protocol carries it: host and port. A host
/// name in it is never longer than 255 bytes.
#[derive(Debug, PartialEq, Eq)]
pub struct Address {
    host: Host,
    port: u16,
}

/// What an [`Address`] stands for.
pub struct AddressView {
    pub host: HostView,
    pub port: u16,
}

impl View for Address {
    type V = AddressView;

    closed spec fn view(&self) -> AddressView {
        AddressView { host: self.host@, port: self.port }
    }
}

impl AddressView {
    /// An address can be put on the wire when a host name fits the one
    /// length byte that precedes it.
    pub open spec fn wf(self) -> bool {
        self.host matches HostView::Domain(name) ==> name.len() <= 255
    }

    /// The address of an IP endpoint.
    pub open spec fn of_endpoint(e: Endpoint) -> AddressView {
        AddressView { host: HostView::Ip(e.ip), port: e.port }
    }

    /// The wildcard address `0.0.0.0:0`.
    pub open spec fn wildcard() -> AddressView {
        AddressView { host: HostView::Ip(IpAddress::V4([0u8, 0u8, 0u8, 0u8])), port: 0 }
    }
}

impl Clone for Address {
    fn clone(&self) -> (copy: Address)
        ensures
            copy@ == self@,
    {
        proof {
            use_type_invariant(self);
        }
        Address { host: self.host.clone(), port: self.port }
    }
}

impl Address {
    #[verifier::type_invariant]
    spec fn inv(&self) -> bool {
        self@.wf()
    }

    /// The address of an IP host.
    pub fn ip(ip: IpAddress, port: u16) -> (a: Address)
        ensures
            a@ == (AddressView { host: HostView::Ip(ip), port }),
    {
        Address { host: Host::Ip(ip), port }
    }

    /// The address of an IP endpoint.
    pub fn from_endpoint(e: &Endpoint) -> (a: Address)
        ensures
            a@ == AddressView::of_endpoint(*e),
    {
        Address { host: Host::Ip(e.ip), port: e.port }
    }

    /// The wildcard address `0.0.0.0:0`, sent where a request names no
    /// destination.
    pub fn wildcard() -> (a: Address)
        ensures
            a@ == AddressView::wildcard(),
    {
        Address { host: Host::Ip(IpAddress::unspecified()), port: 0 }
    }

    /// The address of a named host, or `None` when the name is longer than
    /// the 255 bytes that the wire format can carry.
    pub fn domain(name: Vec<u8>, port: u16) -> (a: Option<Address>)
        ensures
            name@.len() <= 255 ==> a is Some && a->0@ == (AddressView {
                host: HostView::Domain(name@),
                port,
            }),
            name@.len() > 255 ==> a is None,
    {
        if name.len() <= 255 {
            Some(Address { host: Host::Domain(name), port })
        } else {
            None
        }
    }

    /// The address's host.
    pub fn host(&self) -> (h: &Host)
        ensures
            h@ == self@.host,
            self@.wf(),
    {
        proof {
            use_type_invariant(self);
        }
        &self.host
    }

    /// The address's port.
    pub fn port(&self) -> (p: u16)
        ensures
            p == self@.port,
    {
        self.port
    }

    /// The IP endpoint that the address names, if it names one.
    pub fn endpoint(&self) -> (e: Option<Endpoint>)
        ensures
            match self@.host {
                HostView::Ip(ip) => e == Some(Endpoint { ip, port: self@.port }),
                HostView::Domain(_) => e is None,
            },
    {
        match &self.host {
            Host::Ip(ip) => Some(Endpoint { ip: *ip, port: self.port }),
            Host::Domain(_) => None,
        }
    }
}

} // verus!
