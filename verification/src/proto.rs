//! The framing spoken on a tunnel connection: the request that opens it, the
//! records of a UDP association and the records of the ping channel.
//!
//! All numbers of more than one byte travel high byte first. Every parser is
//! a function of the bytes received so far: it answers `Continued` while the
//! bytes are a proper beginning of a frame, and never reads past the frame.

use crate::addr::{ipv4_of, ipv6_of, Address, AddressView, Endpoint, Host, HostView, IpAddress};
use crate::buffer::{buf_extend_from_slice, buf_put_u16, buf_put_u8, buffered};
use bytes::BytesMut;
use vstd::prelude::*;
use vstd::slice::*;

verus! {

/// Address type byte of an IPv4 address.
pub const IPV4: u8 = 0x01;

/// Address type byte of a host name.
pub const DOMAIN: u8 = 0x03;

/// Address type byte of an IPv6 address.
pub const IPV6: u8 = 0x04;

/// Command byte that asks the relay to open a TCP stream.
pub const CONNECT: u8 = 0x01;

/// Command byte that asks the relay for a UDP association.
pub const UDP_ASSOCIATE: u8 = 0x03;

/// Command byte that opens the ping channel.
pub const PING: u8 = 0xff;

/// The most payload bytes a UDP datagram can carry: its own length field
/// counts the eight header bytes and has sixteen bits. A record that
/// announces more is malformed.
pub const MAX_DATAGRAM: usize = 65527;

/// What a tunnel connection is opened for.
#[derive(Clone, Copy, Debug, PartialEq, Eq)]
pub enum Command {
    Connect,
    UdpAssociate,
    Ping,
}

impl Command {
    /// The byte that stands for the command on the wire.
    pub open spec fn code(self) -> u8 {
        match self {
            Command::Connect => CONNECT,
            Command::UdpAssociate => UDP_ASSOCIATE,
            Command::Ping => PING,
        }
    }

    /// The command that a byte stands for, if any.
    pub open spec fn of_code(byte: u8) -> Option<Command> {
        if byte == CONNECT {
            Some(Command::Connect)
        } else if byte == UDP_ASSOCIATE {
            Some(Command::UdpAssociate)
        } else if byte == PING {
            Some(Command::Ping)
        } else {
            None
        }
    }

    /// The byte that stands for the command on the wire.
    pub fn to_byte(self) -> (byte: u8)
        ensures
            byte == self.code(),
    {
        match self {
            Command::Connect => CONNECT,
            Command::UdpAssociate => UDP_ASSOCIATE,
            Command::Ping => PING,
        }
    }

    /// The command that a byte stands for, if any.
    pub fn from_byte(byte: u8) -> (cmd: Option<Command>)
        ensures
            cmd == Command::of_code(byte),
    {
        if byte == CONNECT {
            Some(Command::Connect)
        } else if byte == UDP_ASSOCIATE {
            Some(Command::UdpAssociate)
        } else if byte == PING {
            Some(Command::Ping)
        } else {
            None
        }
    }
}

/// The two bytes of `value`, high byte first.
pub open spec fn be16(value: u16) -> Seq<u8> {
    seq![(value / 256) as u8, (value % 256) as u8]
}

/// The number whose high byte is `hi` and whose low byte is `lo`.
pub open spec fn from_be16(hi: u8, lo: u8) -> u16 {
    (hi * 256 + lo) as u16
}

/// The two bytes that end a header.
pub open spec fn crlf() -> Seq<u8> {
    seq![0x0du8, 0x0au8]
}

/// An IP address on the wire: its type byte, then its octets.
pub open spec fn spec_ip(ip: IpAddress) -> Seq<u8> {
    match ip {
        IpAddress::V4(o) => seq![IPV4] + o@,
        IpAddress::V6(o) => seq![IPV6] + o@,
    }
}

/// A host on the wire: an IP address as above, a name as its type byte, its
/// length and its bytes.
pub open spec fn spec_host(host: HostView) -> Seq<u8> {
    match host {
        HostView::Ip(ip) => spec_ip(ip),
        HostView::Domain(name) => seq![DOMAIN, name.len() as u8] + name,
    }
}

/// An address on the wire: the host, then the port.
pub open spec fn spec_address(addr: AddressView) -> Seq<u8> {
    spec_host(addr.host) + be16(addr.port)
}

/// The request that opens a tunnel connection: command, address, line end.
pub open spec fn spec_request(cmd: Command, addr: AddressView) -> Seq<u8> {
    seq![cmd.code()] + spec_address(addr) + crlf()
}

/// What precedes the payload of a UDP record: address, payload length, line
/// end.
pub open spec fn spec_record_header(addr: AddressView, length: u16) -> Seq<u8> {
    spec_address(addr) + be16(length) + crlf()
}

/// A datagram and the far end it travels to or comes from.
pub struct RecordView {
    pub address: AddressView,
    pub payload: Seq<u8>,
}

impl RecordView {
    /// A record can be put on the wire when its address can and its payload
    /// fits a datagram.
    pub open spec fn wf(self) -> bool {
        self.address.wf() && self.payload.len() <= MAX_DATAGRAM
    }
}

/// A UDP record on the wire: header, then payload.
pub open spec fn spec_record(record: RecordView) -> Seq<u8> {
    spec_record_header(record.address, record.payload.len() as u16) + record.payload
}

/// A measurement of one destination, as the ping channel reports it.
pub struct PingRecord {
    pub ip: IpAddress,
    pub ping: u16,
    pub lost: u8,
}

/// A ping record on the wire: the address, the latency in milliseconds, the
/// loss in percent.
pub open spec fn spec_ping_record(record: PingRecord) -> Seq<u8> {
    spec_ip(record.ip) + be16(record.ping) + seq![record.lost]
}

/// A request and what it asks for.
pub struct RequestView {
    pub command: Command,
    pub address: AddressView,
}

/// The outcome of parsing the bytes received so far.
pub enum Parsed<T> {
    /// The bytes are a proper beginning of a frame: more are needed.
    Continued,
    /// No frame begins with these bytes.
    Invalid,
    /// The first `used` bytes are the frame `value`.
    Complete { value: T, used: nat },
}

/// Parses an address from the front of `b`.
pub open spec fn parse_address(b: Seq<u8>) -> Parsed<AddressView> {
    if b.len() == 0 {
        Parsed::Continued
    } else if b[0] == IPV4 {
        if b.len() < 7 {
            Parsed::Continued
        } else {
            Parsed::Complete {
                value: AddressView {
                    host: HostView::Ip(ipv4_of(b.skip(1))),
                    port: from_be16(b[5], b[6]),
                },
                used: 7,
            }
        }
    } else if b[0] == IPV6 {
        if b.len() < 19 {
            Parsed::Continued
        } else {
            Parsed::Complete {
                value: AddressView {
                    host: HostView::Ip(ipv6_of(b.skip(1))),
                    port: from_be16(b[17], b[18]),
                },
                used: 19,
            }
        }
    } else if b[0] == DOMAIN {
        if b.len() < 2 || b.len() < 4 + b[1] {
            Parsed::Continued
        } else {
            Parsed::Complete {
                value: AddressView {
                    host: HostView::Domain(b.subrange(2, 2 + b[1])),
                    port: from_be16(b[2 + b[1]], b[3 + b[1]]),
                },
                used: (4 + b[1]) as nat,
            }
        }
    } else {
        Parsed::Invalid
    }
}

/// Parses a request from the front of `b`.
pub open spec fn parse_request(b: Seq<u8>) -> Parsed<RequestView> {
    if b.len() == 0 {
        Parsed::Continued
    } else {
        match Command::of_code(b[0]) {
            None => Parsed::Invalid,
            Some(command) => match parse_address(b.skip(1)) {
                Parsed::Continued => Parsed::Continued,
                Parsed::Invalid => Parsed::Invalid,
                Parsed::Complete { value, used } => {
                    let n = used as int;
                    if b.len() < n + 3 {
                        Parsed::Continued
                    } else if b[n + 1] != 0x0d || b[n + 2] != 0x0a {
                        Parsed::Invalid
                    } else {
                        Parsed::Complete {
                            value: RequestView { command, address: value },
                            used: (n + 3) as nat,
                        }
                    }
                },
            },
        }
    }
}

/// Parses a UDP record from the front of `b`.
#[verifier::opaque]
pub open spec fn parse_record(b: Seq<u8>) -> Parsed<RecordView> {
    match parse_address(b) {
        Parsed::Continued => Parsed::Continued,
        Parsed::Invalid => Parsed::Invalid,
        Parsed::Complete { value, used } => {
            let n = used as int;
            if b.len() < n + 4 {
                Parsed::Continued
            } else {
                let length = from_be16(b[n], b[n + 1]);
                if length > MAX_DATAGRAM || b[n + 2] != 0x0d || b[n + 3] != 0x0a {
                    Parsed::Invalid
                } else if b.len() < n + 4 + length {
                    Parsed::Continued
                } else {
                    Parsed::Complete {
                        value: RecordView {
                            address: value,
                            payload: b.subrange(n + 4, n + 4 + length),
                        },
                        used: (n + 4 + length) as nat,
                    }
                }
            }
        },
    }
}

/// Parses a ping record from the front of `b`.
pub open spec fn parse_ping_record(b: Seq<u8>) -> Parsed<PingRecord> {
    if b.len() == 0 {
        Parsed::Continued
    } else if b[0] == IPV4 {
        if b.len() < 8 {
            Parsed::Continued
        } else {
            Parsed::Complete {
                value: PingRecord {
                    ip: ipv4_of(b.skip(1)),
                    ping: from_be16(b[5], b[6]),
                    lost: b[7],
                },
                used: 8,
            }
        }
    } else if b[0] == IPV6 {
        if b.len() < 20 {
            Parsed::Continued
        } else {
            Parsed::Complete {
                value: PingRecord {
                    ip: ipv6_of(b.skip(1)),
                    ping: from_be16(b[17], b[18]),
                    lost: b[19],
                },
                used: 20,
            }
        }
    } else {
        Parsed::Invalid
    }
}

/// What a run of bytes holds at its front: whole records, one after the
/// other.
pub struct Decoded {
    /// The records, in the order in which they arrived.
    pub records: Seq<RecordView>,
    /// The number of bytes that the records take.
    pub used: nat,
    /// Whether what follows the records may still become a record.
    pub valid: bool,
}

/// Parses records from the front of `b` until the bytes run out or no
/// record begins where the last one ended.
pub open spec fn decode_records(b: Seq<u8>) -> Decoded
    decreases b.len(),
{
    match parse_record(b) {
        Parsed::Continued => Decoded { records: Seq::empty(), used: 0, valid: true },
        Parsed::Invalid => Decoded { records: Seq::empty(), used: 0, valid: false },
        Parsed::Complete { value, used } => {
            if 0 < used <= b.len() {
                let more = decode_records(b.skip(used as int));
                Decoded {
                    records: seq![value] + more.records,
                    used: used + more.used,
                    valid: more.valid,
                }
            } else {
                Decoded { records: Seq::empty(), used: 0, valid: false }
            }
        },
    }
}

/// The records `rs` on the wire, one after the other.
pub open spec fn spec_records(rs: Seq<RecordView>) -> Seq<u8>
    decreases rs.len(),
{
    if rs.len() == 0 {
        Seq::empty()
    } else {
        spec_record(rs[0]) + spec_records(rs.drop_first())
    }
}

/// A decoder that is fed a byte stream in chunks.
pub struct Stream {
    /// The records decoded so far.
    pub records: Seq<RecordView>,
    /// The bytes received behind the last record.
    pub residual: Seq<u8>,
    /// Whether the stream has been well formed so far.
    pub valid: bool,
}

impl Stream {
    /// The decoder before the first byte.
    pub open spec fn start() -> Stream {
        Stream { records: Seq::empty(), residual: Seq::empty(), valid: true }
    }

    /// The residual holds no whole record: it is a proper beginning of one
    /// while the stream is well formed, and the place where no record
    /// begins once it is not.
    pub open spec fn settled(self) -> bool {
        if self.valid {
            parse_record(self.residual) is Continued
        } else {
            parse_record(self.residual) is Invalid
        }
    }

    /// The decoder after one more chunk.
    pub open spec fn feed(self, chunk: Seq<u8>) -> Stream {
        if self.valid {
            let d = decode_records(self.residual + chunk);
            Stream {
                records: self.records + d.records,
                residual: (self.residual + chunk).skip(d.used as int),
                valid: d.valid,
            }
        } else {
            Stream { records: self.records, residual: self.residual + chunk, valid: false }
        }
    }

    /// The decoder after the bytes of `bytes`, fed one at a time.
    pub open spec fn feed_bytes(self, bytes: Seq<u8>) -> Stream
        decreases bytes.len(),
    {
        if bytes.len() == 0 {
            self
        } else {
            self.feed(seq![bytes[0]]).feed_bytes(bytes.drop_first())
        }
    }
}

/// Appends an IP address to `buffer`.
pub fn put_ip(buffer: &mut BytesMut, ip: &IpAddress)
    ensures
        buffered(*final(buffer)) == buffered(*old(buffer)) + spec_ip(*ip),
{
    match ip {
        IpAddress::V4(octets) => {
            buf_put_u8(buffer, IPV4);
            buf_extend_from_slice(buffer, octets.as_slice());
        },
        IpAddress::V6(octets) => {
            buf_put_u8(buffer, IPV6);
            buf_extend_from_slice(buffer, octets.as_slice());
        },
    }
}

/// Appends an address to `buffer`.
pub fn put_address(buffer: &mut BytesMut, addr: &Address)
    ensures
        buffered(*final(buffer)) == buffered(*old(buffer)) + spec_address(addr@),
{
    match addr.host() {
        Host::Ip(ip) => {
            put_ip(buffer, ip);
        },
        Host::Domain(name) => {
            buf_put_u8(buffer, DOMAIN);
            buf_put_u8(buffer, name.len() as u8);
            buf_extend_from_slice(buffer, name.as_slice());
        },
    }
    buf_put_u16(buffer, addr.port());
}

/// The request that opens a tunnel connection.
#[derive(Debug, PartialEq, Eq)]
pub struct TrojanRequest {
    pub command: Command,
    pub address: Address,
    /// The number of bytes the request takes on the wire.
    pub length: usize,
}

/// What the bytes received so far hold of a request.
#[derive(Debug, PartialEq, Eq)]
pub enum RequestParseResult {
    Continued,
    Request(TrojanRequest),
    InvalidProtocol,
}

impl TrojanRequest {
    /// Appends to `buffer` the request that opens a connection for `cmd` to
    /// `addr`.
    pub fn generate(buffer: &mut BytesMut, cmd: Command, addr: &Address)
        ensures
            buffered(*final(buffer)) == buffered(*old(buffer)) + spec_request(cmd, addr@),
    {
        buf_put_u8(buffer, cmd.to_byte());
        put_address(buffer, addr);
        buf_put_u8(buffer, 0x0d);
        buf_put_u8(buffer, 0x0a);
    }

    /// Parses a request from the front of `bytes`.
    pub fn parse(bytes: &[u8]) -> (r: RequestParseResult)
        ensures
            match r {
                RequestParseResult::Continued => parse_request(bytes@) is Continued,
                RequestParseResult::InvalidProtocol => parse_request(bytes@) is Invalid,
                RequestParseResult::Request(req) => parse_request(bytes@) == (Parsed::Complete {
                    value: RequestView { command: req.command, address: req.address@ },
                    used: req.length as nat,
                }),
            },
    {
        let n = bytes.len();
        if n == 0 {
            return RequestParseResult::Continued;
        }
        let command = match Command::from_byte(bytes[0]) {
            None => {
                return RequestParseResult::InvalidProtocol;
            },
            Some(c) => c,
        };
        let rest = slice_subrange(bytes, 1, n);
        match parse_address_bytes(rest) {
            AddressParseResult::Continued => RequestParseResult::Continued,
            AddressParseResult::InvalidProtocol => RequestParseResult::InvalidProtocol,
            AddressParseResult::Address(address, used) => {
                if n < used + 3 {
                    RequestParseResult::Continued
                } else if bytes[used + 1] != 0x0d || bytes[used + 2] != 0x0a {
                    RequestParseResult::InvalidProtocol
                } else {
                    RequestParseResult::Request(
                        TrojanRequest { command, address, length: used + 3 },
                    )
                }
            },
        }
    }
}

/// What the bytes received so far hold of an address.
#[derive(Debug, PartialEq, Eq)]
pub enum AddressParseResult {
    Continued,
    /// The address, and the number of bytes it takes on the wire.
    Address(Address, usize),
    InvalidProtocol,
}

/// Parses an address from the front of `bytes`.
pub fn parse_address_bytes(bytes: &[u8]) -> (r: AddressParseResult)
    ensures
        match r {
            AddressParseResult::Continued => parse_address(bytes@) is Continued,
            AddressParseResult::InvalidProtocol => parse_address(bytes@) is Invalid,
            AddressParseResult::Address(addr, used) => parse_address(bytes@) == (Parsed::Complete {
                value: addr@,
                used: used as nat,
            }) && used <= bytes@.len(),
        },
{
    let n = bytes.len();
    if n == 0 {
        return AddressParseResult::Continued;
    }
    let kind = bytes[0];
    if kind == IPV4 {
        if n < 7 {
            return AddressParseResult::Continued;
        }
        let ip = IpAddress::read_v4(bytes, 1);
        let port = (bytes[5] as u16) * 256 + (bytes[6] as u16);
        AddressParseResult::Address(Address::ip(ip, port), 7)
    } else if kind == IPV6 {
        if n < 19 {
            return AddressParseResult::Continued;
        }
        let ip = IpAddress::read_v6(bytes, 1);
        let port = (bytes[17] as u16) * 256 + (bytes[18] as u16);
        AddressParseResult::Address(Address::ip(ip, port), 19)
    } else if kind == DOMAIN {
        if n < 2 {
            return AddressParseResult::Continued;
        }
        let len = bytes[1] as usize;
        if n < 4 + len {
            return AddressParseResult::Continued;
        }
        let name = slice_to_vec(slice_subrange(bytes, 2, 2 + len));
        let port = (bytes[2 + len] as u16) * 256 + (bytes[3 + len] as u16);
        match Address::domain(name, port) {
            Some(addr) => AddressParseResult::Address(addr, 4 + len),
            None => AddressParseResult::InvalidProtocol,
        }
    } else {
        AddressParseResult::InvalidProtocol
    }
}

/// A UDP record found at the front of a buffer.
#[derive(Debug, PartialEq, Eq)]
pub struct UdpAssociate<'a> {
    /// The far end of the datagram.
    pub address: Address,
    /// The number of payload bytes.
    pub length: usize,
    /// Everything behind the header: the payload, then whatever follows
    /// the record.
    pub payload: &'a [u8],
}

/// What the bytes received so far hold of a UDP record.
#[derive(Debug, PartialEq, Eq)]
pub enum UdpParseResultEndpoint<'a> {
    Continued,
    Packet(UdpAssociate<'a>),
    InvalidProtocol,
}

impl<'a> UdpAssociate<'a> {
    /// Appends to `buffer` the header of a record that carries `length`
    /// payload bytes to or from `addr`.
    pub fn generate(buffer: &mut BytesMut, addr: &Address, length: u16)
        ensures
            buffered(*final(buffer)) == buffered(*old(buffer)) + spec_record_header(
                addr@,
                length,
            ),
    {
        put_address(buffer, addr);
        buf_put_u16(buffer, length);
        buf_put_u8(buffer, 0x0d);
        buf_put_u8(buffer, 0x0a);
    }

    /// Appends to `buffer` the header of a record that carries `length`
    /// payload bytes to or from the IP endpoint `endpoint`.
    pub fn generate_endpoint(buffer: &mut BytesMut, endpoint: &Endpoint, length: u16)
        ensures
            buffered(*final(buffer)) == buffered(*old(buffer)) + spec_record_header(
                AddressView::of_endpoint(*endpoint),
                length,
            ),
    {
        let addr = Address::from_endpoint(endpoint);
        UdpAssociate::generate(buffer, &addr, length);
    }

    /// Parses a record from the front of `buffer`.
    pub fn parse_endpoint(buffer: &'a [u8]) -> (r: UdpParseResultEndpoint<'a>)
        ensures
            match r {
                UdpParseResultEndpoint::Continued => parse_record(buffer@) is Continued,
                UdpParseResultEndpoint::InvalidProtocol => parse_record(buffer@) is Invalid,
                UdpParseResultEndpoint::Packet(p) => {
                    &&& p.length <= p.payload@.len() <= buffer@.len()
                    &&& p.payload@ == buffer@.skip(buffer@.len() - p.payload@.len())
                    &&& parse_record(buffer@) == (Parsed::Complete {
                        value: RecordView {
                            address: p.address@,
                            payload: p.payload@.take(p.length as int),
                        },
                        used: (buffer@.len() - p.payload@.len() + p.length) as nat,
                    })
                },
            },
    {
        reveal(parse_record);
        let n = buffer.len();
        match parse_address_bytes(buffer) {
            AddressParseResult::Continued => UdpParseResultEndpoint::Continued,
            AddressParseResult::InvalidProtocol => UdpParseResultEndpoint::InvalidProtocol,
            AddressParseResult::Address(address, used) => {
                if n - used < 4 {
                    return UdpParseResultEndpoint::Continued;
                }
                let length = ((buffer[used] as u16) * 256 + (buffer[used + 1] as u16)) as usize;
                if length > MAX_DATAGRAM || buffer[used + 2] != 0x0d || buffer[used + 3] != 0x0a {
                    return UdpParseResultEndpoint::InvalidProtocol;
                }
                if n - used - 4 < length {
                    return UdpParseResultEndpoint::Continued;
                }
                let payload = slice_subrange(buffer, used + 4, n);
                assert(payload@.take(length as int) =~= buffer@.subrange(
                    used + 4,
                    used + 4 + length,
                ));
                UdpParseResultEndpoint::Packet(UdpAssociate { address, length, payload })
            },
        }
    }
}

/// What the bytes received so far hold of a ping record.
#[derive(Clone, Copy, Debug, PartialEq, Eq)]
pub enum PingParseResult {
    Continued,
    /// The destination, its latency in milliseconds, its loss in percent,
    /// and the number of bytes the record takes on the wire.
    Record(IpAddress, u16, u8, usize),
    InvalidProtocol,
}

/// Parses a ping record from the front of `bytes`.
pub fn parse_ping(bytes: &[u8]) -> (r: PingParseResult)
    ensures
        match r {
            PingParseResult::Continued => parse_ping_record(bytes@) is Continued,
            PingParseResult::InvalidProtocol => parse_ping_record(bytes@) is Invalid,
            PingParseResult::Record(ip, ping, lost, used) => parse_ping_record(bytes@) == (
            Parsed::Complete { value: PingRecord { ip, ping, lost }, used: used as nat }) && used
                <= bytes@.len(),
        },
{
    let n = bytes.len();
    if n == 0 {
        return PingParseResult::Continued;
    }
    let kind = bytes[0];
    if kind == IPV4 {
        if n < 8 {
            return PingParseResult::Continued;
        }
        let ip = IpAddress::read_v4(bytes, 1);
        let ping = (bytes[5] as u16) * 256 + (bytes[6] as u16);
        PingParseResult::Record(ip, ping, bytes[7], 8)
    } else if kind == IPV6 {
        if n < 20 {
            return PingParseResult::Continued;
        }
        let ip = IpAddress::read_v6(bytes, 1);
        let ping = (bytes[17] as u16) * 256 + (bytes[18] as u16);
        PingParseResult::Record(ip, ping, bytes[19], 20)
    } else {
        PingParseResult::InvalidProtocol
    }
}

/// A datagram taken off a UDP association, with the far end it came from.
#[derive(Debug, PartialEq, Eq)]
pub struct Datagram {
    pub address: Address,
    pub payload: Vec<u8>,
}

impl View for Datagram {
    type V = RecordView;

    open spec fn view(&self) -> RecordView {
        RecordView { address: self.address@, payload: self.payload@ }
    }
}

/// What each of the datagrams stands for.
pub open spec fn datagram_views(ds: Seq<Datagram>) -> Seq<RecordView> {
    ds.map_values(|d: Datagram| d@)
}

/// The records found at the front of a buffer.
#[derive(Debug, PartialEq, Eq)]
pub struct Drained {
    /// The records, in the order in which they arrived.
    pub datagrams: Vec<Datagram>,
    /// The number of bytes that the records take.
    pub used: usize,
    /// `false` when no record begins where the last one ended.
    pub valid: bool,
}

/// Parses records from the front of `buffer` until the bytes run out or no
/// record begins where the last one ended.
pub fn drain_records(buffer: &[u8]) -> (r: Drained)
    ensures
        datagram_views(r.datagrams@) == decode_records(buffer@).records,
        r.used == decode_records(buffer@).used,
        r.valid == decode_records(buffer@).valid,
        r.used <= buffer@.len(),
{
    let n = buffer.len();
    let mut datagrams: Vec<Datagram> = Vec::new();
    let mut pos: usize = 0;
    let mut valid = true;
    let mut done = false;
    proof {
        assert(buffer@.skip(0) =~= buffer@);
        assert(datagram_views(datagrams@) + decode_records(buffer@).records
            =~= decode_records(buffer@).records);
    }
    while !done
        invariant
            n == buffer@.len(),
            pos <= n,
            !done ==> valid,
            decode_records(buffer@).records == datagram_views(datagrams@) + decode_records(
                buffer@.skip(pos as int),
            ).records,
            decode_records(buffer@).used == pos + decode_records(buffer@.skip(pos as int)).used,
            decode_records(buffer@).valid == decode_records(buffer@.skip(pos as int)).valid,
            done ==> decode_records(buffer@.skip(pos as int)) == (Decoded {
                records: Seq::empty(),
                used: 0,
                valid,
            }),
        decreases (if done { 0int } else { 1int }) + n - pos,
    {
        let rest = slice_subrange(buffer, pos, n);
        match UdpAssociate::parse_endpoint(rest) {
            UdpParseResultEndpoint::Continued => {
                done = true;
            },
            UdpParseResultEndpoint::InvalidProtocol => {
                valid = false;
                done = true;
            },
            UdpParseResultEndpoint::Packet(p) => {
                let header = rest.len() - p.payload.len();
                let used = header + p.length;
                let payload = slice_to_vec(slice_subrange(p.payload, 0, p.length));
                proof {
                    crate::roundtrip::lemma_record_stable(rest@, Seq::empty());
                    assert(rest@.skip(used as int) =~= buffer@.skip(pos + used));
                    let d = Datagram { address: p.address, payload };
                    assert(datagram_views(datagrams@.push(d)) =~= datagram_views(datagrams@)
                        + seq![d@]);
                }
                datagrams.push(Datagram { address: p.address, payload });
                pos = pos + used;
            },
        }
    }
    Drained { datagrams, used: pos, valid }
}

} // verus!
