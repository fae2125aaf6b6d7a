use trojan_tun::addr::{Endpoint, IpAddress};
use trojan_tun::packet::{
    flow_of, NetParts, Packet, PacketInfo, Transport, PROTOCOL_TCP, PROTOCOL_UDP,
};
use trojan_tun::types::{reaction, Origin, Reaction, TrojanError};

fn ipv4(protocol: u8, payload: &[u8]) -> Vec<u8> {
    let total = (20 + payload.len()) as u16;
    let mut p = vec![0x45, 0x00];
    p.extend_from_slice(&total.to_be_bytes());
    p.extend_from_slice(&[0, 0, 0, 0, 64, protocol, 0, 0]);
    p.extend_from_slice(&[10, 0, 0, 3]);
    p.extend_from_slice(&[8, 8, 8, 8]);
    p.extend_from_slice(payload);
    p
}

fn ipv6(next_header: u8, payload: &[u8]) -> Vec<u8> {
    let mut p = vec![0x60, 0, 0, 0];
    p.extend_from_slice(&(payload.len() as u16).to_be_bytes());
    p.extend_from_slice(&[next_header, 64]);
    p.extend_from_slice(&[0x11; 16]);
    p.extend_from_slice(&[0x22; 16]);
    p.extend_from_slice(payload);
    p
}

fn udp(src: u16, dst: u16, data: &[u8]) -> Vec<u8> {
    let mut p = Vec::new();
    p.extend_from_slice(&src.to_be_bytes());
    p.extend_from_slice(&dst.to_be_bytes());
    p.extend_from_slice(&((8 + data.len()) as u16).to_be_bytes());
    p.extend_from_slice(&[0, 0]);
    p.extend_from_slice(data);
    p
}

fn tcp(src: u16, dst: u16, options: usize, data: &[u8]) -> Vec<u8> {
    let mut p = Vec::new();
    p.extend_from_slice(&src.to_be_bytes());
    p.extend_from_slice(&dst.to_be_bytes());
    p.extend_from_slice(&[0; 8]);
    p.push((((20 + options) / 4) as u8) << 4);
    p.extend_from_slice(&[0x18, 0xff, 0xff, 0, 0, 0, 0]);
    p.extend_from_slice(&vec![1u8; options]);
    p.extend_from_slice(data);
    p
}

#[test]
fn new_packet_is_zeroed() {
    let p = Packet::new(1500);
    assert_eq!(p.bytes().len(), 1500);
    assert!(p.bytes().iter().all(|b| *b == 0));
    assert!(Packet::new(0).bytes().is_empty());
}

#[test]
fn packet_bytes_can_be_written() {
    let mut p = Packet::new(4);
    p.bytes_mut().copy_from_slice(&[1, 2, 3, 4]);
    assert_eq!(p.bytes(), &[1, 2, 3, 4]);
    p.bytes_mut()[2] = 9;
    assert_eq!(p.bytes(), &[1, 2, 9, 4]);
}

#[test]
fn set_len_cuts_the_packet() {
    let mut p = Packet::from(vec![1, 2, 3, 4, 5]);
    p.set_len(3);
    assert_eq!(p.bytes(), &[1, 2, 3]);
    p.set_len(3);
    assert_eq!(p.bytes(), &[1, 2, 3]);
    p.set_len(10);
    assert_eq!(p.bytes(), &[1, 2, 3]);
    p.set_len(0);
    assert!(p.bytes().is_empty());
}

#[test]
fn packet_from_bytes() {
    let p = Packet::from(vec![7, 8]);
    assert_eq!(p.bytes(), &[7, 8]);
}

#[test]
fn info_of_a_udp_packet() {
    let p = Packet::from(ipv4(PROTOCOL_UDP, &udp(5353, 53, &[0x5a; 40])));
    assert_eq!(
        p.info(),
        Ok(Some(PacketInfo {
            protocol: Transport::Udp,
            src: Endpoint::new(IpAddress::v4(10, 0, 0, 3), 5353),
            dst: Endpoint::new(IpAddress::v4(8, 8, 8, 8), 53),
            payload_len: 40,
        }))
    );
}

#[test]
fn info_of_a_tcp_packet() {
    let p = Packet::from(ipv4(PROTOCOL_TCP, &tcp(40000, 7, 0, b"PING\n")));
    assert_eq!(
        p.info(),
        Ok(Some(PacketInfo {
            protocol: Transport::Tcp,
            src: Endpoint::new(IpAddress::v4(10, 0, 0, 3), 40000),
            dst: Endpoint::new(IpAddress::v4(8, 8, 8, 8), 7),
            payload_len: 5,
        }))
    );
    let p = Packet::from(ipv4(PROTOCOL_TCP, &tcp(1, 2, 12, b"abc")));
    assert_eq!(p.info().unwrap().unwrap().payload_len, 3);
}

#[test]
fn info_of_an_ipv6_packet() {
    let p = Packet::from(ipv6(PROTOCOL_UDP, &udp(1000, 2000, b"hello")));
    assert_eq!(
        p.info(),
        Ok(Some(PacketInfo {
            protocol: Transport::Udp,
            src: Endpoint::new(IpAddress::V6([0x11; 16]), 1000),
            dst: Endpoint::new(IpAddress::V6([0x22; 16]), 2000),
            payload_len: 5,
        }))
    );
}

#[test]
fn info_ignores_what_follows_the_packet() {
    let mut bytes = ipv4(PROTOCOL_UDP, &udp(1, 2, b"abc"));
    bytes.extend_from_slice(&[0xee; 9]);
    assert_eq!(Packet::from(bytes).info().unwrap().unwrap().payload_len, 3);
    let mut bytes = ipv6(PROTOCOL_TCP, &tcp(1, 2, 0, b"abcd"));
    bytes.extend_from_slice(&[0xee; 9]);
    assert_eq!(Packet::from(bytes).info().unwrap().unwrap().payload_len, 4);
}

#[test]
fn info_reads_the_header_length() {
    // an IPv4 header with one word of options
    let l4 = udp(1, 2, b"xy");
    let total = (24 + l4.len()) as u16;
    let mut p = vec![0x46, 0x00];
    p.extend_from_slice(&total.to_be_bytes());
    p.extend_from_slice(&[0, 0, 0, 0, 64, PROTOCOL_UDP, 0, 0]);
    p.extend_from_slice(&[10, 0, 0, 3]);
    p.extend_from_slice(&[8, 8, 8, 8]);
    p.extend_from_slice(&[0, 0, 0, 0]);
    p.extend_from_slice(&l4);
    let info = Packet::from(p).info().unwrap().unwrap();
    assert_eq!(info.src.port, 1);
    assert_eq!(info.dst.port, 2);
    assert_eq!(info.payload_len, 2);
}

#[test]
fn info_of_other_protocols_is_none() {
    assert_eq!(Packet::from(ipv4(1, &[8, 0, 0, 0])).info(), Ok(None));
    assert_eq!(Packet::from(ipv6(58, &[128, 0, 0, 0])).info(), Ok(None));
}

#[test]
fn info_of_malformed_packets_is_an_error() {
    assert_eq!(Packet::from(Vec::new()).info(), Err(TrojanError::Protocol));
    assert_eq!(Packet::new(0).info(), Err(TrojanError::Protocol));
    // neither version 4 nor 6
    assert_eq!(Packet::new(40).info(), Err(TrojanError::Protocol));
    let mut bad = ipv4(PROTOCOL_UDP, &udp(1, 2, b"abc"));
    bad[0] = 0x55;
    assert_eq!(Packet::from(bad).info(), Err(TrojanError::Protocol));
    // shorter than its total length
    let mut short = ipv4(PROTOCOL_UDP, &udp(1, 2, b"abc"));
    short.pop();
    assert_eq!(Packet::from(short).info(), Err(TrojanError::Protocol));
    // shorter than a header
    assert_eq!(Packet::from(vec![0x45; 19]).info(), Err(TrojanError::Protocol));
    assert_eq!(Packet::from(vec![0x60; 39]).info(), Err(TrojanError::Protocol));
    // header longer than the total length
    let mut long_header = ipv4(PROTOCOL_UDP, &udp(1, 2, b"abc"));
    long_header[2] = 0;
    long_header[3] = 19;
    assert_eq!(Packet::from(long_header).info(), Err(TrojanError::Protocol));
    // IPv6 payload longer than the frame
    let mut v6 = ipv6(PROTOCOL_UDP, &udp(1, 2, b"abc"));
    v6[5] += 1;
    assert_eq!(Packet::from(v6).info(), Err(TrojanError::Protocol));
}

#[test]
fn info_of_malformed_segments_is_an_error() {
    // UDP length field below the header length
    let mut l4 = udp(1, 2, b"abc");
    l4[5] = 7;
    assert_eq!(Packet::from(ipv4(PROTOCOL_UDP, &l4)).info(), Err(TrojanError::Protocol));
    // UDP length field beyond the datagram
    let mut l4 = udp(1, 2, b"abc");
    l4[5] = 12;
    assert_eq!(Packet::from(ipv4(PROTOCOL_UDP, &l4)).info(), Err(TrojanError::Protocol));
    // UDP header cut short
    assert_eq!(
        Packet::from(ipv4(PROTOCOL_UDP, &[0, 1, 0, 2, 0, 8, 0])).info(),
        Err(TrojanError::Protocol)
    );
    // TCP data offset below five words
    let mut l4 = tcp(1, 2, 0, b"abc");
    l4[12] = 0x40;
    assert_eq!(Packet::from(ipv4(PROTOCOL_TCP, &l4)).info(), Err(TrojanError::Protocol));
    // TCP data offset beyond the segment
    let mut l4 = tcp(1, 2, 0, b"abc");
    l4[12] = 0x60;
    assert_eq!(Packet::from(ipv4(PROTOCOL_TCP, &l4)).info(), Err(TrojanError::Protocol));
    // TCP header cut short
    assert_eq!(
        Packet::from(ipv4(PROTOCOL_TCP, &[0; 19])).info(),
        Err(TrojanError::Protocol)
    );
}

#[test]
fn flow_of_parsed_headers() {
    let net = NetParts {
        src: IpAddress::v4(1, 1, 1, 1),
        dst: IpAddress::v4(2, 2, 2, 2),
        protocol: PROTOCOL_UDP,
        payload: udp(9, 10, b"z"),
    };
    assert_eq!(
        flow_of(&net),
        Ok(Some(PacketInfo {
            protocol: Transport::Udp,
            src: Endpoint::new(IpAddress::v4(1, 1, 1, 1), 9),
            dst: Endpoint::new(IpAddress::v4(2, 2, 2, 2), 10),
            payload_len: 1,
        }))
    );
    let other = NetParts { protocol: 47, ..net };
    assert_eq!(flow_of(&other), Ok(None));
    let broken = NetParts { protocol: PROTOCOL_TCP, payload: vec![0; 3], ..other };
    assert_eq!(flow_of(&broken), Err(TrojanError::Protocol));
}

#[test]
fn reactions_to_failures() {
    assert_eq!(reaction(TrojanError::Io, Origin::Flow), Reaction::CloseFlow);
    assert_eq!(reaction(TrojanError::Tls, Origin::Flow), Reaction::CloseFlow);
    assert_eq!(reaction(TrojanError::Protocol, Origin::Flow), Reaction::CloseFlow);
    assert_eq!(
        reaction(TrojanError::Protocol, Origin::PingChannel),
        Reaction::ReopenPingChannel
    );
    assert_eq!(reaction(TrojanError::Io, Origin::PingChannel), Reaction::ReopenPingChannel);
    assert_eq!(reaction(TrojanError::Unreachable, Origin::Flow), Reaction::ReportError);
    assert_eq!(reaction(TrojanError::Unreachable, Origin::PingChannel), Reaction::ReportError);
    assert_eq!(reaction(TrojanError::Io, Origin::Tun), Reaction::Stop);
    assert_eq!(reaction(TrojanError::LockPoisoned, Origin::Flow), Reaction::Stop);
    assert_eq!(reaction(TrojanError::LockPoisoned, Origin::Shared), Reaction::Stop);
    assert_eq!(reaction(TrojanError::ConfigInvalid, Origin::Startup), Reaction::Stop);
    assert_eq!(reaction(TrojanError::MissingContext, Origin::Shared), Reaction::Stop);
}
