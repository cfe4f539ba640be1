//! Fixed-layout wire encodings of socket addresses and ports.
use vstd::prelude::*;

verus! {

broadcast use vstd::array::group_array_axioms;

/// Length of an encoded socket address, whatever its family.
pub const ADDRESS_LEN: usize = 27;

/// A socket address as it travels in the discovery protocol.
#[derive(Clone, Copy, Debug, PartialEq, Eq)]
pub enum SocketAddr {
    V4 { octets: [u8; 4], port: u16 },
    V6 { segments: [u16; 8], port: u16, flowinfo: u32, scope_id: u32 },
}

/// Why a buffer could not be read as an address.
#[derive(Clone, Copy, Debug, PartialEq, Eq)]
pub enum AddressError {
    /// The buffer holds fewer than `ADDRESS_LEN` bytes.
    TooShort,
}

/// Big-endian bytes of a 16-bit value.
pub open spec fn u16_be(v: u16) -> Seq<u8> {
    seq![(v / 256) as u8, (v % 256) as u8]
}

/// Big-endian bytes of a 32-bit value.
pub open spec fn u32_be(v: u32) -> Seq<u8> {
    seq![
        (v / 0x1000000) as u8,
        ((v / 0x10000) % 256) as u8,
        ((v / 256) % 256) as u8,
        (v % 256) as u8,
    ]
}

/// The big-endian 16-bit value stored at `b[i..i + 2]`.
pub open spec fn read_be16(b: Seq<u8>, i: int) -> int {
    b[i] * 256 + b[i + 1]
}

/// The big-endian 32-bit value stored at `b[i..i + 4]`.
pub open spec fn read_be32(b: Seq<u8>, i: int) -> int {
    b[i] * 0x1000000 + b[i + 1] * 0x10000 + b[i + 2] * 256 + b[i + 3]
}

/// The 27 bytes that encode `a`: a family byte (0 for IPv4, 1 for IPv6), then the
/// address, the port, and for IPv6 the flow-info and scope-id, all big-endian.
/// The bytes an IPv4 address leaves unused are zero.
pub open spec fn address_bytes(a: SocketAddr) -> Seq<u8> {
    match a {
        SocketAddr::V4 { octets, port } =>
            seq![0u8] + octets@ + u16_be(port) + Seq::new(20, |i: int| 0u8),
        SocketAddr::V6 { segments, port, flowinfo, scope_id } =>
            seq![1u8]
                + u16_be(segments[0]) + u16_be(segments[1]) + u16_be(segments[2])
                + u16_be(segments[3]) + u16_be(segments[4]) + u16_be(segments[5])
                + u16_be(segments[6]) + u16_be(segments[7])
                + u16_be(port) + u32_be(flowinfo) + u32_be(scope_id),
    }
}

/// `b` (at least `ADDRESS_LEN` bytes) is an encoding of `a`.
pub open spec fn decodes_to(b: Seq<u8>, a: SocketAddr) -> bool {
    match a {
        SocketAddr::V4 { octets, port } =>
            b[0] == 0 && octets@ == b.subrange(1, 5) && port == read_be16(b, 5),
        SocketAddr::V6 { segments, port, flowinfo, scope_id } => {
            &&& b[0] == 1
            &&& forall|i: int| 0 <= i < 8 ==> #[trigger] segments[i] == read_be16(b, 1 + 2 * i)
            &&& port == read_be16(b, 17)
            &&& flowinfo == read_be32(b, 19)
            &&& scope_id == read_be32(b, 23)
        },
    }
}

/// Little-endian bytes of a port, as sent in a beacon reply.
pub open spec fn port_bytes(p: u16) -> Seq<u8> {
    seq![(p % 256) as u8, (p / 256) as u8]
}

/// The port held little-endian in the first two bytes of `b`.
pub open spec fn port_of(b: Seq<u8>) -> int {
    b[0] + b[1] * 256
}

fn hi(v: u16) -> (r: u8)
    ensures
        r == v / 256,
{
    (v / 256) as u8
}

fn lo(v: u16) -> (r: u8)
    ensures
        r == v % 256,
{
    (v % 256) as u8
}

/// Encodes `address` in its fixed 27-byte form.
pub fn serialise_address(address: SocketAddr) -> (r: [u8; 27])
    ensures
        r@ == address_bytes(address),
{
    match address {
        SocketAddr::V4 { octets, port } => {
            let r = [
                0u8, octets[0], octets[1], octets[2], octets[3], hi(port), lo(port),
                0, 0, 0, 0, 0, 0, 0, 0, 0, 0, 0, 0, 0, 0, 0, 0, 0, 0, 0, 0,
            ];
            assert(r@ =~= address_bytes(address));
            r
        },
        SocketAddr::V6 { segments, port, flowinfo, scope_id } => {
            let s = segments;
            let r = [
                1u8,
                hi(s[0]), lo(s[0]), hi(s[1]), lo(s[1]), hi(s[2]), lo(s[2]), hi(s[3]), lo(s[3]),
                hi(s[4]), lo(s[4]), hi(s[5]), lo(s[5]), hi(s[6]), lo(s[6]), hi(s[7]), lo(s[7]),
                hi(port), lo(port),
                (flowinfo / 0x1000000) as u8, ((flowinfo / 0x10000) % 256) as u8,
                ((flowinfo / 256) % 256) as u8, (flowinfo % 256) as u8,
                (scope_id / 0x1000000) as u8, ((scope_id / 0x10000) % 256) as u8,
                ((scope_id / 256) % 256) as u8, (scope_id % 256) as u8,
            ];
            assert(r@ =~= address_bytes(address));
            r
        },
    }
}

fn be16_at(b: &[u8], i: usize) -> (r: u16)
    requires
        i + 1 < b@.len(),
    ensures
        r == read_be16(b@, i as int),
{
    (b[i] as u16) * 256 + (b[i + 1] as u16)
}

fn be32_at(b: &[u8], i: usize) -> (r: u32)
    requires
        i + 3 < b@.len(),
    ensures
        r == read_be32(b@, i as int),
{
    (b[i] as u32) * 0x1000000 + (b[i + 1] as u32) * 0x10000 + (b[i + 2] as u32) * 256
        + (b[i + 3] as u32)
}

/// Reads an address from the first 27 bytes of `buffer`. A family byte other
/// than 0 or 1 gives `None`; a buffer too short for the encoding is an error.
pub fn parse_address(buffer: &[u8]) -> (r: Result<Option<SocketAddr>, AddressError>)
    ensures
        buffer@.len() < ADDRESS_LEN <==> r == Err::<Option<SocketAddr>, AddressError>(
            AddressError::TooShort,
        ),
        buffer@.len() >= ADDRESS_LEN && buffer@[0] > 1 ==> r == Ok::<
            Option<SocketAddr>,
            AddressError,
        >(None),
        match r {
            Ok(Some(a)) => buffer@.len() >= ADDRESS_LEN && decodes_to(buffer@, a),
            Ok(None) => buffer@.len() >= ADDRESS_LEN && buffer@[0] > 1,
            Err(_) => buffer@.len() < ADDRESS_LEN,
        },
{
    if buffer.len() < ADDRESS_LEN {
        return Err(AddressError::TooShort);
    }
    if buffer[0] == 0 {
        let octets = [buffer[1], buffer[2], buffer[3], buffer[4]];
        assert(octets@ =~= buffer@.subrange(1, 5));
        Ok(Some(SocketAddr::V4 { octets, port: be16_at(buffer, 5) }))
    } else if buffer[0] == 1 {
        let segments = [
            be16_at(buffer, 1), be16_at(buffer, 3), be16_at(buffer, 5), be16_at(buffer, 7),
            be16_at(buffer, 9), be16_at(buffer, 11), be16_at(buffer, 13), be16_at(buffer, 15),
        ];
        let a = SocketAddr::V6 {
            segments,
            port: be16_at(buffer, 17),
            flowinfo: be32_at(buffer, 19),
            scope_id: be32_at(buffer, 23),
        };
        assert forall|i: int| 0 <= i < 8 implies #[trigger] segments[i] == read_be16(
            buffer@,
            1 + 2 * i,
        ) by {
            assert(i == 0 || i == 1 || i == 2 || i == 3 || i == 4 || i == 5 || i == 6 || i == 7);
        }
        Ok(Some(a))
    } else {
        Ok(None)
    }
}

/// Encodes a port in the two bytes of a beacon reply, low byte first.
pub fn serialise_port(port: u16) -> (r: [u8; 2])
    ensures
        r@ == port_bytes(port),
{
    let r = [lo(port), hi(port)];
    assert(r@ =~= port_bytes(port));
    r
}

/// Reads the port of a beacon reply, low byte first.
pub fn parse_port(data: [u8; 2]) -> (r: u16)
    ensures
        r == port_of(data@),
{
    (data[0] as u16) + (data[1] as u16) * 256
}

proof fn lemma_u16_be(v: u16)
    ensures
        read_be16(u16_be(v), 0) == v,
{
}

proof fn lemma_u32_be(v: u32)
    ensures
        read_be32(u32_be(v), 0) == v,
{
}

/// Decoding the encoding of any address, IPv4 or IPv6 with any flow-info and
/// scope-id, gives back that address and no other.
pub proof fn lemma_address_round_trip(a: SocketAddr, x: SocketAddr)
    ensures
        address_bytes(a).len() == ADDRESS_LEN,
        decodes_to(address_bytes(a), a),
        decodes_to(address_bytes(a), x) <==> x == a,
{
    let b = address_bytes(a);
    match a {
        SocketAddr::V4 { octets, port } => {
            lemma_u16_be(port);
            assert(b.subrange(5, 7) =~= u16_be(port));
            assert(b.subrange(1, 5) =~= octets@);
            if decodes_to(b, x) {
                if let SocketAddr::V4 { octets: o, port: q } = x {
                    assert(o =~= octets);
                }
            }
        },
        SocketAddr::V6 { segments, port, flowinfo, scope_id } => {
            assert forall|i: int| 0 <= i < 8 implies #[trigger] segments[i] == read_be16(
                b,
                1 + 2 * i,
            ) by {
                lemma_u16_be(segments[i]);
                assert(b.subrange(1 + 2 * i, 3 + 2 * i) =~= u16_be(segments[i]));
            }
            lemma_u16_be(port);
            assert(b.subrange(17, 19) =~= u16_be(port));
            lemma_u32_be(flowinfo);
            assert(b.subrange(19, 23) =~= u32_be(flowinfo));
            lemma_u32_be(scope_id);
            assert(b.subrange(23, 27) =~= u32_be(scope_id));
            if decodes_to(b, x) {
                if let SocketAddr::V6 { segments: s, .. } = x {
                    assert(s =~= segments);
                }
            }
        },
    }
}

/// Reading back the encoding of any port gives that port.
pub proof fn lemma_port_round_trip(p: u16)
    ensures
        port_of(port_bytes(p)) == p,
{
}

} // verus!
