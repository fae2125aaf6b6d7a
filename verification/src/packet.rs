//! A frame of the TUN device, and what its headers say: the addresses and
//! ports of the flow that it belongs to.
//!
//! The headers are read by the `smoltcp` crate. Verus does not look inside
//! it: each function marked as not verified below states, without proof,
//! which bytes the crate's parser reads and when it rejects a frame.

use crate::addr::{ipv4_of, ipv6_of, Endpoint, IpAddress};
use crate::proto::from_be16;
use crate::types::TrojanError;
use smoltcp::wire::{IpVersion, Ipv4Packet, Ipv6Packet, TcpPacket, UdpPacket};
use vstd::prelude::*;

verus! {

/// `smoltcp::wire::Error`, the one error of the crate's parsers, known to
/// Verus by name only.
#[verifier::external_type_specification]
#[verifier::external_body]
pub struct ExWireError(smoltcp::wire::Error);

/// Protocol number of TCP in an IP header.
pub const PROTOCOL_TCP: u8 = 6;

/// Protocol number of UDP in an IP header.
pub const PROTOCOL_UDP: u8 = 17;

/// What an IP header says of its packet.
#[derive(Debug, PartialEq, Eq)]
pub struct NetParts {
    pub src: IpAddress,
    pub dst: IpAddress,
    /// The number of the protocol that the payload belongs to.
    pub protocol: u8,
    pub payload: Vec<u8>,
}

/// What a [`NetParts`] stands for.
pub struct NetView {
    pub src: IpAddress,
    pub dst: IpAddress,
    pub protocol: u8,
    pub payload: Seq<u8>,
}

impl View for NetParts {
    type V = NetView;

    open spec fn view(&self) -> NetView {
        NetView { src: self.src, dst: self.dst, protocol: self.protocol, payload: self.payload@ }
    }
}

/// What a TCP or UDP header says of its segment.
#[derive(Clone, Copy, Debug, PartialEq, Eq)]
pub struct TransportParts {
    pub src_port: u16,
    pub dst_port: u16,
    /// The number of bytes behind the header.
    pub payload_len: usize,
}

/// The version of the Internet Protocol that a frame belongs to.
#[derive(Clone, Copy, Debug, PartialEq, Eq)]
pub enum IpFamily {
    V4,
    V6,
}

/// The IP version that the first byte of a frame names in its high half:
/// 4, 6, or none of them.
pub open spec fn spec_ip_version(b: Seq<u8>) -> Option<IpFamily> {
    if b[0] / 16 == 4 {
        Some(IpFamily::V4)
    } else if b[0] / 16 == 6 {
        Some(IpFamily::V6)
    } else {
        None
    }
}

/// What the header of an IPv4 packet says, if the frame holds the header
/// and as many bytes as the header announces.
pub open spec fn spec_ipv4(b: Seq<u8>) -> Option<NetView> {
    if b.len() < 20 {
        None
    } else {
        let header = (b[0] % 16) * 4;
        let total = from_be16(b[2], b[3]) as int;
        if b.len() < header || header > total || b.len() < total {
            None
        } else {
            Some(
                NetView {
                    src: ipv4_of(b.skip(12)),
                    dst: ipv4_of(b.skip(16)),
                    protocol: b[9],
                    payload: b.subrange(header, total),
                },
            )
        }
    }
}

/// What the header of an IPv6 packet says, if the frame holds the header
/// and as many bytes as the header announces.
pub open spec fn spec_ipv6(b: Seq<u8>) -> Option<NetView> {
    if b.len() < 40 || b.len() < 40 + from_be16(b[4], b[5]) {
        None
    } else {
        Some(
            NetView {
                src: ipv6_of(b.skip(8)),
                dst: ipv6_of(b.skip(24)),
                protocol: b[6],
                payload: b.subrange(40, 40 + from_be16(b[4], b[5])),
            },
        )
    }
}

/// What the header of a UDP datagram says, if the bytes hold the header and
/// as many bytes as the header announces.
pub open spec fn spec_udp(b: Seq<u8>) -> Option<TransportParts> {
    if b.len() < 8 || b.len() < from_be16(b[4], b[5]) || from_be16(b[4], b[5]) < 8 {
        None
    } else {
        Some(
            TransportParts {
                src_port: from_be16(b[0], b[1]),
                dst_port: from_be16(b[2], b[3]),
                payload_len: (from_be16(b[4], b[5]) - 8) as usize,
            },
        )
    }
}

/// What the header of a TCP segment says, if the bytes hold the header.
pub open spec fn spec_tcp(b: Seq<u8>) -> Option<TransportParts> {
    if b.len() < 20 {
        None
    } else {
        let header = (b[12] / 16) * 4;
        if b.len() < header || header < 20 {
            None
        } else {
            Some(
                TransportParts {
                    src_port: from_be16(b[0], b[1]),
                    dst_port: from_be16(b[2], b[3]),
                    payload_len: (b.len() - header) as usize,
                },
            )
        }
    }
}

/// `IpVersion::of_packet`: the version is the high half of the first byte;
/// any other than 4 and 6 is an error. The function reads the first byte
/// unchecked, so the frame must not be empty.
#[verifier::external_body]
fn ip_version(bytes: &[u8]) -> (r: Result<IpFamily, smoltcp::wire::Error>)
    requires
        bytes@.len() >= 1,
    ensures
        r is Ok == spec_ip_version(bytes@) is Some,
        r is Ok ==> Some(r->Ok_0) == spec_ip_version(bytes@),
{
    match IpVersion::of_packet(bytes) {
        Ok(IpVersion::Ipv4) => Ok(IpFamily::V4),
        Ok(IpVersion::Ipv6) => Ok(IpFamily::V6),
        Err(e) => Err(e),
    }
}

/// `Ipv4Packet::new_checked` and the accessors `src_addr`, `dst_addr`,
/// `next_header` and `payload`: the frame is rejected when it is shorter
/// than twenty bytes, than its header length or than its total length, or
/// when the header is longer than the total; else the fields are read at
/// their fixed places and the payload lies between header and total length.
#[verifier::external_body]
fn ipv4_parts(bytes: &[u8]) -> (r: Result<NetParts, smoltcp::wire::Error>)
    ensures
        r is Ok == spec_ipv4(bytes@) is Some,
        r is Ok ==> Some(r->Ok_0@) == spec_ipv4(bytes@),
{
    let packet = Ipv4Packet::new_checked(bytes)?;
    Ok(
        NetParts {
            src: IpAddress::V4(packet.src_addr().0),
            dst: IpAddress::V4(packet.dst_addr().0),
            protocol: u8::from(packet.next_header()),
            payload: packet.payload().to_vec(),
        },
    )
}

/// `Ipv6Packet::new_checked` and the accessors `src_addr`, `dst_addr`,
/// `next_header` and `payload`: the frame is rejected when it is shorter
/// than the forty bytes of the header or than header and announced payload
/// together; else the fields are read at their fixed places and the payload
/// follows the header.
#[verifier::external_body]
fn ipv6_parts(bytes: &[u8]) -> (r: Result<NetParts, smoltcp::wire::Error>)
    ensures
        r is Ok == spec_ipv6(bytes@) is Some,
        r is Ok ==> Some(r->Ok_0@) == spec_ipv6(bytes@),
{
    let packet = Ipv6Packet::new_checked(bytes)?;
    Ok(
        NetParts {
            src: IpAddress::V6(packet.src_addr().0),
            dst: IpAddress::V6(packet.dst_addr().0),
            protocol: u8::from(packet.next_header()),
            payload: packet.payload().to_vec(),
        },
    )
}

/// `UdpPacket::new_checked` and the accessors `src_port`, `dst_port` and
/// `payload`: the datagram is rejected when it is shorter than the eight
/// bytes of the header or than its length field, or when the length field
/// is less than eight; else the payload is what the length field counts
/// behind the header.
#[verifier::external_body]
fn udp_parts(bytes: &[u8]) -> (r: Result<TransportParts, smoltcp::wire::Error>)
    ensures
        r is Ok == spec_udp(bytes@) is Some,
        r is Ok ==> Some(r->Ok_0) == spec_udp(bytes@),
{
    let packet = UdpPacket::new_checked(bytes)?;
    Ok(
        TransportParts {
            src_port: packet.src_port(),
            dst_port: packet.dst_port(),
            payload_len: packet.payload().len(),
        },
    )
}

/// `TcpPacket::new_checked` and the accessors `src_port`, `dst_port` and
/// `payload`: the segment is rejected when it is shorter than twenty bytes
/// or than its header length, or when the header length is less than
/// twenty; else the payload is all that follows the header.
#[verifier::external_body]
fn tcp_parts(bytes: &[u8]) -> (r: Result<TransportParts, smoltcp::wire::Error>)
    ensures
        r is Ok == spec_tcp(bytes@) is Some,
        r is Ok ==> Some(r->Ok_0) == spec_tcp(bytes@),
{
    let packet = TcpPacket::new_checked(bytes)?;
    Ok(
        TransportParts {
            src_port: packet.src_port(),
            dst_port: packet.dst_port(),
            payload_len: packet.payload().len(),
        },
    )
}

/// The transport protocol of a flow.
#[derive(Clone, Copy, Debug, PartialEq, Eq)]
pub enum Transport {
    Tcp,
    Udp,
}

/// The flow that a frame belongs to.
#[derive(Clone, Copy, Debug, PartialEq, Eq)]
pub struct PacketInfo {
    pub protocol: Transport,
    pub src: Endpoint,
    pub dst: Endpoint,
    /// The number of payload bytes behind the transport header.
    pub payload_len: usize,
}

/// What the IP header of a frame says, if the frame is a well-formed IPv4
/// or IPv6 packet.
pub open spec fn spec_net(b: Seq<u8>) -> Option<NetView> {
    if b.len() == 0 {
        None
    } else {
        match spec_ip_version(b) {
            Some(IpFamily::V4) => spec_ipv4(b),
            Some(IpFamily::V6) => spec_ipv6(b),
            None => None,
        }
    }
}

/// The flow that a packet belongs to: none for a packet that is neither TCP
/// nor UDP, an error for one whose transport header is malformed.
pub open spec fn spec_flow(net: NetView) -> Result<Option<PacketInfo>, TrojanError> {
    if net.protocol == PROTOCOL_UDP {
        match spec_udp(net.payload) {
            Some(t) => Ok(
                Some(
                    PacketInfo {
                        protocol: Transport::Udp,
                        src: Endpoint { ip: net.src, port: t.src_port },
                        dst: Endpoint { ip: net.dst, port: t.dst_port },
                        payload_len: t.payload_len,
                    },
                ),
            ),
            None => Err(TrojanError::Protocol),
        }
    } else if net.protocol == PROTOCOL_TCP {
        match spec_tcp(net.payload) {
            Some(t) => Ok(
                Some(
                    PacketInfo {
                        protocol: Transport::Tcp,
                        src: Endpoint { ip: net.src, port: t.src_port },
                        dst: Endpoint { ip: net.dst, port: t.dst_port },
                        payload_len: t.payload_len,
                    },
                ),
            ),
            None => Err(TrojanError::Protocol),
        }
    } else {
        Ok(None)
    }
}

/// The flow that a frame belongs to.
pub open spec fn spec_info(b: Seq<u8>) -> Result<Option<PacketInfo>, TrojanError> {
    match spec_net(b) {
        Some(net) => spec_flow(net),
        None => Err(TrojanError::Protocol),
    }
}

/// A frame read from or written to the TUN device.
#[derive(Debug, PartialEq, Eq)]
pub struct Packet {
    data: Vec<u8>,
}

impl View for Packet {
    type V = Seq<u8>;

    closed spec fn view(&self) -> Seq<u8> {
        self.data@
    }
}

impl From<Vec<u8>> for Packet {
    /// The frame that holds the bytes `value`.
    fn from(value: Vec<u8>) -> (p: Packet) {
        Packet { data: value }
    }
}

impl vstd::std_specs::convert::FromSpecImpl<Vec<u8>> for Packet {
    open spec fn obeys_from_spec() -> bool {
        true
    }

    closed spec fn from_spec(value: Vec<u8>) -> Packet {
        Packet { data: value }
    }
}

impl Packet {
    /// The frame that `Packet::from` makes of `value` holds the bytes of
    /// `value`.
    pub proof fn lemma_from(value: Vec<u8>)
        ensures
            <Packet as vstd::std_specs::convert::FromSpec<Vec<u8>>>::from_spec(value)@ == value@,
    {
    }

    /// A frame of `size` zero bytes.
    pub fn new(size: u16) -> (p: Packet)
        ensures
            p@ == Seq::new(size as nat, |i: int| 0u8),
    {
        let mut data: Vec<u8> = Vec::new();
        let mut i: u16 = 0;
        while i < size
            invariant
                i <= size,
                data@ == Seq::new(i as nat, |k: int| 0u8),
            decreases size - i,
        {
            data.push(0);
            i += 1;
        }
        Packet { data }
    }

    /// The bytes of the frame, to be written to.
    pub fn bytes_mut(&mut self) -> (bytes: &mut [u8])
        ensures
            bytes@ == old(self)@,
            final(self)@ == final(bytes)@,
    {
        self.data.as_mut_slice()
    }

    /// The bytes of the frame.
    pub fn bytes(&self) -> (bytes: &[u8])
        ensures
            bytes@ == self@,
    {
        self.data.as_slice()
    }

    /// Cuts the frame down to its first `len` bytes. A frame that is not
    /// longer stays as it is.
    pub fn set_len(&mut self, len: usize)
        ensures
            final(self)@ == if len <= old(self)@.len() {
                old(self)@.take(len as int)
            } else {
                old(self)@
            },
    {
        if len <= self.data.len() {
            self.data.truncate(len);
        }
    }

    /// The IP header of the frame.
    fn net(&self) -> (r: Result<NetParts, smoltcp::wire::Error>)
        requires
            self@.len() >= 1,
        ensures
            r is Ok == spec_net(self@) is Some,
            r is Ok ==> Some(r->Ok_0@) == spec_net(self@),
    {
        let bytes = self.data.as_slice();
        match ip_version(bytes) {
            Ok(IpFamily::V4) => ipv4_parts(bytes),
            Ok(IpFamily::V6) => ipv6_parts(bytes),
            Err(e) => Err(e),
        }
    }

    /// The flow that the frame belongs to: its protocol, its two endpoints
    /// and the number of payload bytes. A frame that is neither TCP nor UDP
    /// belongs to none; a frame whose headers are malformed is an error.
    pub fn info(&self) -> (r: Result<Option<PacketInfo>, TrojanError>)
        ensures
            r == spec_info(self@),
    {
        if self.data.len() == 0 {
            return Err(TrojanError::Protocol);
        }
        match self.net() {
            Ok(net) => flow_of(&net),
            Err(_) => Err(TrojanError::Protocol),
        }
    }
}

/// The flow that a packet with the IP header `net` belongs to.
pub fn flow_of(net: &NetParts) -> (r: Result<Option<PacketInfo>, TrojanError>)
    ensures
        r == spec_flow(net@),
{
    if net.protocol == PROTOCOL_UDP {
        match udp_parts(net.payload.as_slice()) {
            Ok(t) => Ok(
                Some(
                    PacketInfo {
                        protocol: Transport::Udp,
                        src: Endpoint { ip: net.src, port: t.src_port },
                        dst: Endpoint { ip: net.dst, port: t.dst_port },
                        payload_len: t.payload_len,
                    },
                ),
            ),
            Err(_) => Err(TrojanError::Protocol),
        }
    } else if net.protocol == PROTOCOL_TCP {
        match tcp_parts(net.payload.as_slice()) {
            Ok(t) => Ok(
                Some(
                    PacketInfo {
                        protocol: Transport::Tcp,
                        src: Endpoint { ip: net.src, port: t.src_port },
                        dst: Endpoint { ip: net.dst, port: t.dst_port },
                        payload_len: t.payload_len,
                    },
                ),
            ),
            Err(_) => Err(TrojanError::Protocol),
        }
    } else {
        Ok(None)
    }
}

} // verus!
