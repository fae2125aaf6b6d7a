//! What holds between the encoders and the parsers of the wire format:
//! parsing gives back what was encoded, a proper beginning of a frame parses
//! as `Continued`, and the way a byte stream is cut into chunks does not
//! change what is decoded from it.

use crate::addr::{ipv4_of, ipv6_of, AddressView, HostView, IpAddress};
use crate::proto::{
    be16, decode_records, from_be16, parse_address, parse_ping_record, parse_record,
    parse_request, spec_address, spec_ip, spec_ping_record, spec_record, spec_records,
    spec_request, Command, Decoded, Parsed, PingRecord, RecordView, RequestView, Stream,
};
use vstd::prelude::*;

verus! {

/// Two bytes written high byte first read back as the number they were
/// written from.
pub proof fn lemma_be16_round_trip(value: u16)
    ensures
        be16(value).len() == 2,
        from_be16(be16(value)[0], be16(value)[1]) == value,
{
}

/// An IP address on the wire takes five or seventeen bytes, and its octets
/// read back as the address.
pub proof fn lemma_ip_bytes(ip: IpAddress, rest: Seq<u8>)
    ensures
        ip is V4 ==> spec_ip(ip).len() == 5 && ipv4_of((spec_ip(ip) + rest).skip(1)) == ip,
        ip is V6 ==> spec_ip(ip).len() == 17 && ipv6_of((spec_ip(ip) + rest).skip(1)) == ip,
{
    let b = spec_ip(ip) + rest;
    match ip {
        IpAddress::V4(o) => {
            assert(ipv4_of(b.skip(1))->V4_0 =~= o);
        },
        IpAddress::V6(o) => {
            assert(ipv6_of(b.skip(1))->V6_0 =~= o);
        },
    }
}

/// Parsing an encoded address gives the address back and uses exactly its
/// bytes, whatever follows them.
pub proof fn lemma_address_round_trip(addr: AddressView, rest: Seq<u8>)
    requires
        addr.wf(),
    ensures
        parse_address(spec_address(addr) + rest) == (Parsed::Complete {
            value: addr,
            used: spec_address(addr).len(),
        }),
        spec_address(addr).len() >= 4,
{
    let b = spec_address(addr) + rest;
    lemma_be16_round_trip(addr.port);
    match addr.host {
        HostView::Ip(ip) => {
            lemma_ip_bytes(ip, be16(addr.port) + rest);
        },
        HostView::Domain(name) => {
            assert(b.subrange(2, 2 + b[1]) =~= name);
        },
    }
}

/// A proper beginning of an encoded address parses as `Continued`.
pub proof fn lemma_address_prefix(addr: AddressView, k: int)
    requires
        addr.wf(),
        0 <= k < spec_address(addr).len(),
    ensures
        parse_address(spec_address(addr).take(k)) is Continued,
{
}

/// Bytes that follow a complete or a malformed address do not change how
/// it parses.
pub proof fn lemma_address_stable(x: Seq<u8>, y: Seq<u8>)
    requires
        !(parse_address(x) is Continued),
    ensures
        parse_address(x + y) == parse_address(x),
        parse_address(x) matches Parsed::Complete { used, .. } ==> 4 <= used <= x.len(),
{
    let b = x + y;
    if x[0] == 0x03 {
        assert(b.subrange(2, 2 + b[1]) =~= x.subrange(2, 2 + x[1]));
    }
}

/// Parsing an encoded request gives the request back and uses exactly its
/// bytes, whatever follows them.
pub proof fn lemma_request_round_trip(cmd: Command, addr: AddressView, rest: Seq<u8>)
    requires
        addr.wf(),
    ensures
        parse_request(spec_request(cmd, addr) + rest) == (Parsed::Complete {
            value: RequestView { command: cmd, address: addr },
            used: spec_request(cmd, addr).len(),
        }),
{
    let a = spec_address(addr);
    let n = a.len() as int;
    let b = spec_request(cmd, addr) + rest;
    let tail = seq![0x0du8, 0x0au8] + rest;
    lemma_address_round_trip(addr, tail);
    assert(Command::of_code(cmd.code()) == Some(cmd));
    assert(b.skip(1) =~= a + tail);
    assert(b[n + 2] == 0x0a);
}

/// A proper beginning of an encoded request parses as `Continued`.
pub proof fn lemma_request_prefix(cmd: Command, addr: AddressView, k: int)
    requires
        addr.wf(),
        0 <= k < spec_request(cmd, addr).len(),
    ensures
        parse_request(spec_request(cmd, addr).take(k)) is Continued,
{
    let full = spec_request(cmd, addr);
    let n = spec_address(addr).len() as int;
    if k >= 1 {
        if k - 1 < n {
            lemma_address_prefix(addr, k - 1);
        } else {
            let tail = full.subrange(1 + n, k);
            lemma_address_round_trip(addr, tail);
        }
    }
}

/// Parsing an encoded record gives the record back and uses exactly its
/// bytes, whatever follows them.
pub proof fn lemma_record_round_trip(record: RecordView, rest: Seq<u8>)
    requires
        record.wf(),
    ensures
        parse_record(spec_record(record) + rest) == (Parsed::Complete {
            value: record,
            used: spec_record(record).len(),
        }),
        spec_record(record).len() >= 8,
{
    reveal(parse_record);
    let a = spec_address(record.address);
    let n = a.len() as int;
    let b = spec_record(record) + rest;
    let length = record.payload.len() as u16;
    let tail = be16(length) + seq![0x0du8, 0x0au8] + record.payload + rest;
    lemma_address_round_trip(record.address, tail);
    lemma_be16_round_trip(length);
    assert(b =~= a + tail);
    assert(b.subrange(n + 4, n + 4 + length) =~= record.payload);
}

/// A proper beginning of an encoded record parses as `Continued`.
pub proof fn lemma_record_prefix(record: RecordView, k: int)
    requires
        record.wf(),
        0 <= k < spec_record(record).len(),
    ensures
        parse_record(spec_record(record).take(k)) is Continued,
{
    reveal(parse_record);
    let full = spec_record(record);
    let length = record.payload.len() as u16;
    let n = spec_address(record.address).len() as int;
    if k < n {
        lemma_address_prefix(record.address, k);
    } else {
        lemma_address_round_trip(record.address, full.subrange(n, k));
        lemma_be16_round_trip(length);
    }
}

/// Bytes that follow a complete or a malformed record do not change how it
/// parses.
pub proof fn lemma_record_stable(x: Seq<u8>, y: Seq<u8>)
    requires
        !(parse_record(x) is Continued),
    ensures
        parse_record(x + y) == parse_record(x),
        parse_record(x) matches Parsed::Complete { used, .. } ==> 8 <= used <= x.len(),
{
    reveal(parse_record);
    let b = x + y;
    lemma_address_stable(x, y);
    match parse_address(x) {
        Parsed::Complete { value, used } => {
            let n = used as int;
            let length = from_be16(x[n], x[n + 1]);
            if parse_record(x) is Complete {
                assert(b.subrange(n + 4, n + 4 + length) =~= x.subrange(n + 4, n + 4 + length));
            }
        },
        _ => {},
    }
}

/// Parsing an encoded ping record gives the record back and uses exactly
/// its bytes, whatever follows them.
pub proof fn lemma_ping_round_trip(record: PingRecord, rest: Seq<u8>)
    ensures
        parse_ping_record(spec_ping_record(record) + rest) == (Parsed::Complete {
            value: record,
            used: spec_ping_record(record).len(),
        }),
{
    lemma_ip_bytes(record.ip, be16(record.ping) + seq![record.lost] + rest);
    lemma_be16_round_trip(record.ping);
}

/// A proper beginning of an encoded ping record parses as `Continued`.
pub proof fn lemma_ping_prefix(record: PingRecord, k: int)
    requires
        0 <= k < spec_ping_record(record).len(),
    ensures
        parse_ping_record(spec_ping_record(record).take(k)) is Continued,
{
}

/// Bytes that follow a complete or a malformed ping record do not change
/// how it parses.
pub proof fn lemma_ping_stable(x: Seq<u8>, y: Seq<u8>)
    requires
        !(parse_ping_record(x) is Continued),
    ensures
        parse_ping_record(x + y) == parse_ping_record(x),
        parse_ping_record(x) matches Parsed::Complete { used, .. } ==> 8 <= used <= x.len(),
{
}

/// No bytes at all are a proper beginning of a record.
pub proof fn lemma_record_empty()
    ensures
        parse_record(Seq::empty()) is Continued,
        Stream::start().settled(),
{
    reveal(parse_record);
}

/// The records found at the front of a run of bytes lie within it, and
/// behind them no whole record follows.
pub proof fn lemma_decode_settles(b: Seq<u8>)
    ensures
        decode_records(b).used <= b.len(),
        decode_records(b).valid ==> parse_record(b.skip(decode_records(b).used as int))
            is Continued,
        !decode_records(b).valid ==> parse_record(b.skip(decode_records(b).used as int))
            is Invalid,
    decreases b.len(),
{
    match parse_record(b) {
        Parsed::Complete { value, used } => {
            lemma_record_stable(b, Seq::empty());
            let rest = b.skip(used as int);
            lemma_decode_settles(rest);
            assert(rest.skip(decode_records(rest).used as int) =~= b.skip(
                decode_records(b).used as int,
            ));
        },
        _ => {
            assert(b.skip(0) =~= b);
        },
    }
}

/// Decoding encoded records gives the records back, in order, and uses
/// every byte.
pub proof fn lemma_records_round_trip(rs: Seq<RecordView>)
    requires
        forall|i: int| 0 <= i < rs.len() ==> (#[trigger] rs[i]).wf(),
    ensures
        decode_records(spec_records(rs)) == (Decoded {
            records: rs,
            used: spec_records(rs).len(),
            valid: true,
        }),
    decreases rs.len(),
{
    if rs.len() == 0 {
        lemma_record_empty();
        assert(decode_records(spec_records(rs)).records =~= rs);
    } else {
        let first = rs[0];
        let others = rs.drop_first();
        let b = spec_records(rs);
        assert forall|i: int| 0 <= i < others.len() implies (#[trigger] others[i]).wf() by {
        }
        lemma_record_round_trip(first, spec_records(others));
        lemma_records_round_trip(others);
        assert(b.skip(spec_record(first).len() as int) =~= spec_records(others));
        assert(seq![first] + others =~= rs);
    }
}

/// A request followed by records decodes as that request followed by those
/// records, with nothing left over.
pub proof fn lemma_stream_round_trip(cmd: Command, addr: AddressView, rs: Seq<RecordView>)
    requires
        addr.wf(),
        forall|i: int| 0 <= i < rs.len() ==> (#[trigger] rs[i]).wf(),
    ensures
        parse_request(spec_request(cmd, addr) + spec_records(rs)) == (Parsed::Complete {
            value: RequestView { command: cmd, address: addr },
            used: spec_request(cmd, addr).len(),
        }),
        decode_records(
            (spec_request(cmd, addr) + spec_records(rs)).skip(spec_request(cmd, addr).len() as int),
        ) == (Decoded { records: rs, used: spec_records(rs).len(), valid: true }),
{
    lemma_request_round_trip(cmd, addr, spec_records(rs));
    lemma_records_round_trip(rs);
    assert((spec_request(cmd, addr) + spec_records(rs)).skip(
        spec_request(cmd, addr).len() as int,
    ) =~= spec_records(rs));
}

/// Bytes that arrive later do not change the records already decoded:
/// decoding `a + b` is decoding `a`, then decoding what `a` left over
/// together with `b`.
pub proof fn lemma_decode_append(a: Seq<u8>, b: Seq<u8>)
    ensures
        ({
            let d = decode_records(a);
            let e = decode_records(a.skip(d.used as int) + b);
            decode_records(a + b) == if d.valid {
                Decoded { records: d.records + e.records, used: d.used + e.used, valid: e.valid }
            } else {
                d
            }
        }),
    decreases a.len(),
{
    let d = decode_records(a);
    match parse_record(a) {
        Parsed::Continued => {
            assert(a.skip(0) + b =~= a + b);
        },
        Parsed::Invalid => {
            lemma_record_stable(a, b);
        },
        Parsed::Complete { value, used } => {
            lemma_record_stable(a, b);
            let rest = a.skip(used as int);
            let more = decode_records(rest);
            lemma_decode_append(rest, b);
            lemma_decode_settles(rest);
            assert((a + b).skip(used as int) =~= rest + b);
            assert(rest.skip(more.used as int) =~= a.skip(d.used as int));
            let e = decode_records(a.skip(d.used as int) + b);
            assert(seq![value] + (more.records + e.records) =~= d.records + e.records);
        },
    }
}

/// Feeding a decoder two chunks in turn leaves it where feeding it both at
/// once does.
pub proof fn lemma_feed_split(s: Stream, first: Seq<u8>, second: Seq<u8>)
    ensures
        s.feed(first).feed(second) == s.feed(first + second),
{
    if s.valid {
        let a = s.residual + first;
        let d = decode_records(a);
        lemma_decode_append(a, second);
        lemma_decode_settles(a);
        assert(a + second =~= s.residual + (first + second));
        if d.valid {
            let mid = a.skip(d.used as int) + second;
            let e = decode_records(mid);
            lemma_decode_settles(mid);
            assert(mid.skip(e.used as int) =~= (a + second).skip((d.used + e.used) as int));
            assert((s.records + d.records) + e.records =~= s.records + (d.records + e.records));
        } else {
            assert(a.skip(d.used as int) + second =~= (a + second).skip(d.used as int));
        }
    } else {
        assert((s.residual + first) + second =~= s.residual + (first + second));
    }
}

/// A decoder whose residual holds no whole record stays as it is when it is
/// fed nothing, and still holds no whole record after any chunk.
pub proof fn lemma_feed_settles(s: Stream, chunk: Seq<u8>)
    requires
        s.settled(),
    ensures
        s.feed(Seq::empty()) == s,
        s.feed(chunk).settled(),
{
    if s.valid {
        assert(s.residual.skip(0) =~= s.residual);
        lemma_decode_settles(s.residual + chunk);
    } else {
        lemma_record_stable(s.residual, chunk);
    }
}

/// Feeding a decoder a byte stream one byte at a time decodes what feeding
/// it the whole stream at once decodes.
pub proof fn lemma_feed_bytes(s: Stream, bytes: Seq<u8>)
    requires
        s.settled(),
    ensures
        s.feed_bytes(bytes) == s.feed(bytes),
    decreases bytes.len(),
{
    if bytes.len() == 0 {
        lemma_feed_settles(s, bytes);
    } else {
        let head = seq![bytes[0]];
        let tail = bytes.drop_first();
        lemma_feed_settles(s, head);
        lemma_feed_bytes(s.feed(head), tail);
        lemma_feed_split(s, head, tail);
        assert(head + tail =~= bytes);
    }
}

/// Encoded records fed one byte at a time to a fresh decoder come out as
/// the records that were encoded, with nothing left over.
pub proof fn lemma_bytewise_round_trip(rs: Seq<RecordView>)
    requires
        forall|i: int| 0 <= i < rs.len() ==> (#[trigger] rs[i]).wf(),
    ensures
        Stream::start().feed_bytes(spec_records(rs)) == (Stream {
            records: rs,
            residual: Seq::empty(),
            valid: true,
        }),
{
    let b = spec_records(rs);
    lemma_record_empty();
    lemma_feed_bytes(Stream::start(), b);
    lemma_records_round_trip(rs);
    assert(b.skip(b.len() as int) =~= Seq::<u8>::empty());
}

} // verus!
