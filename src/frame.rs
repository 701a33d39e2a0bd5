//! The layout of an Ethernet II / IPv4 / TCP frame, and bounds-checked access to its
//! bytes. Multi-byte fields are big-endian on the wire; the readers and writers here
//! swap to and from host order, so that no other module deals with byte order.
use vstd::prelude::*;

verus! {

/// Length of the Ethernet II header.
pub const ETH_HDR_LEN: usize = 14;

/// Length of an IPv4 header without options.
pub const IPV4_HDR_LEN: usize = 20;

/// Length of a TCP header without options.
pub const TCP_HDR_LEN: usize = 20;

/// Offset of the IPv4 version / header-length byte.
pub const IPV4_VIHL: usize = 14;

/// Offset of the IPv4 type-of-service byte.
pub const IPV4_TOS: usize = 15;

/// Offset of the IPv4 header checksum.
pub const IPV4_CHECK: usize = 24;

/// Offset of the IPv4 source address.
pub const IPV4_SRC: usize = 26;

/// Offset of the IPv4 destination address.
pub const IPV4_DST: usize = 30;

/// Offset of the Ethernet destination address.
pub const ETH_DST: usize = 0;

/// Offset of the Ethernet source address.
pub const ETH_SRC: usize = 6;

/// Offset of the source port inside the TCP header.
pub const TCP_SPORT: usize = 0;

/// Offset of the destination port inside the TCP header.
pub const TCP_DPORT: usize = 2;

/// Offset of the data-offset byte (high nibble) inside the TCP header.
pub const TCP_DOFF: usize = 12;

/// Offset of the flags byte inside the TCP header.
pub const TCP_FLAGS: usize = 13;

/// Offset of the checksum inside the TCP header.
pub const TCP_CHECK: usize = 16;

/// The big-endian 16-bit value at `i`.
pub open spec fn be16(b: Seq<u8>, i: int) -> int {
    b[i] as int * 0x100 + b[i + 1] as int
}

/// The big-endian 32-bit value at `i`.
pub open spec fn be32(b: Seq<u8>, i: int) -> int {
    be16(b, i) * 0x10000 + be16(b, i + 2)
}

/// The IPv4 header length, in 32-bit words.
pub open spec fn ihl(b: Seq<u8>) -> int {
    b[IPV4_VIHL as int] as int % 16
}

/// Where the TCP header starts: after the Ethernet header and an IPv4 header of `ihl` words.
pub open spec fn tcp_offset(b: Seq<u8>) -> int {
    ETH_HDR_LEN + 4 * ihl(b)
}

/// The frame is long enough for the header stack: an Ethernet, an IPv4 and a TCP
/// header, and a TCP header behind the IPv4 header of the length its IHL field gives.
pub open spec fn has_headers(b: Seq<u8>) -> bool {
    &&& b.len() >= ETH_HDR_LEN + IPV4_HDR_LEN + TCP_HDR_LEN
    &&& tcp_offset(b) + TCP_HDR_LEN <= b.len()
}

pub open spec fn tos(b: Seq<u8>) -> u8 {
    b[IPV4_TOS as int]
}

pub open spec fn ip_check(b: Seq<u8>) -> int {
    be16(b, IPV4_CHECK as int)
}

pub open spec fn ip_src(b: Seq<u8>) -> int {
    be32(b, IPV4_SRC as int)
}

pub open spec fn ip_dst(b: Seq<u8>) -> int {
    be32(b, IPV4_DST as int)
}

pub open spec fn src_port(b: Seq<u8>) -> int {
    be16(b, tcp_offset(b) + TCP_SPORT)
}

pub open spec fn dst_port(b: Seq<u8>) -> int {
    be16(b, tcp_offset(b) + TCP_DPORT)
}

/// The TCP data offset, in 32-bit words.
pub open spec fn data_offset(b: Seq<u8>) -> int {
    b[tcp_offset(b) + TCP_DOFF] as int / 16
}

/// The TCP PSH flag.
pub open spec fn psh(b: Seq<u8>) -> bool {
    (b[tcp_offset(b) + TCP_FLAGS] as int / 8) % 2 == 1
}

pub open spec fn tcp_check(b: Seq<u8>) -> int {
    be16(b, tcp_offset(b) + TCP_CHECK)
}

/// Where the TCP payload starts.
pub open spec fn payload_offset(b: Seq<u8>) -> int {
    tcp_offset(b) + 4 * data_offset(b)
}

/// `b` with the big-endian 16-bit value `v` stored at `i`.
pub open spec fn put16(b: Seq<u8>, i: int, v: int) -> Seq<u8> {
    b.update(i, (v / 0x100) as u8).update(i + 1, (v % 0x100) as u8)
}

/// `b` with the big-endian 32-bit value `v` stored at `i`.
pub open spec fn put32(b: Seq<u8>, i: int, v: int) -> Seq<u8> {
    put16(put16(b, i, v / 0x10000), i + 2, v % 0x10000)
}

/// `b` with the bytes `m` stored from `i` on.
pub open spec fn put_bytes(b: Seq<u8>, i: int, m: Seq<u8>) -> Seq<u8> {
    Seq::new(b.len(), |k: int| if i <= k < i + m.len() { m[k - i] } else { b[k] })
}

/// The header accessor: the offset of a `len`-byte field at `offset` when the field lies
/// wholly inside the frame, an error otherwise.
pub fn ptr_at(frame: &Vec<u8>, offset: usize, len: usize) -> (r: Result<usize, ()>)
    ensures
        r is Ok <==> offset + len <= frame@.len(),
        r matches Ok(o) ==> o == offset,
{
    if offset > frame.len() || len > frame.len() - offset {
        Err(())
    } else {
        Ok(offset)
    }
}

/// Reads the big-endian 16-bit field at `offset` in host order.
pub fn read_be16(frame: &Vec<u8>, offset: usize) -> (r: u16)
    requires
        offset + 2 <= frame.len(),
    ensures
        r == be16(frame@, offset as int),
{
    (frame[offset] as u16) * 0x100 + frame[offset + 1] as u16
}

/// Reads the big-endian 32-bit field at `offset` in host order.
pub fn read_be32(frame: &Vec<u8>, offset: usize) -> (r: u32)
    requires
        offset + 4 <= frame.len(),
    ensures
        r == be32(frame@, offset as int),
{
    let hi: u16 = read_be16(frame, offset);
    let lo: u16 = read_be16(frame, offset + 2);
    (hi as u32) * 0x10000 + lo as u32
}

/// Stores the host-order value `v` at `offset` in big-endian order.
pub fn write_be16(frame: &mut Vec<u8>, offset: usize, v: u16)
    requires
        offset + 2 <= old(frame).len(),
    ensures
        final(frame)@ == put16(old(frame)@, offset as int, v as int),
{
    frame[offset] = (v / 0x100) as u8;
    frame[offset + 1] = (v % 0x100) as u8;
}

/// Stores the host-order value `v` at `offset` in big-endian order.
pub fn write_be32(frame: &mut Vec<u8>, offset: usize, v: u32)
    requires
        offset + 4 <= old(frame).len(),
    ensures
        final(frame)@ == put32(old(frame)@, offset as int, v as int),
{
    write_be16(frame, offset, (v / 0x10000) as u16);
    write_be16(frame, offset + 2, (v % 0x10000) as u16);
}

/// Stores a 6-byte hardware address at `offset`.
pub fn write_mac(frame: &mut Vec<u8>, offset: usize, mac: &[u8; 6])
    requires
        offset + 6 <= old(frame)@.len(),
    ensures
        final(frame)@ == put_bytes(old(frame)@, offset as int, mac@),
{
    let ghost start = frame@;
    let len: usize = frame.len();
    let mut k: usize = 0;
    while k < 6
        invariant
            k <= 6,
            mac@.len() == 6,
            offset + 6 <= start.len(),
            len == start.len(),
            frame@ == put_bytes(start, offset as int, mac@.subrange(0, k as int)),
        decreases 6 - k,
    {
        frame[offset + k] = mac[k];
        k = k + 1;
        assert(frame@ =~= put_bytes(start, offset as int, mac@.subrange(0, k as int)));
    }
    assert(mac@.subrange(0, 6) =~= mac@);
}

/// The offset of the TCP header when the frame holds the whole header stack that the
/// classifiers read (Ethernet, IPv4 of its stated length, TCP), `None` otherwise.
pub fn locate_tcp(frame: &Vec<u8>) -> (r: Option<usize>)
    ensures
        r is Some <==> has_headers(frame@),
        r matches Some(t) ==> t == tcp_offset(frame@),
{
    if ptr_at(frame, ETH_HDR_LEN, IPV4_HDR_LEN + TCP_HDR_LEN).is_err() {
        return None;
    }
    let ihl: usize = (frame[IPV4_VIHL] % 16) as usize;
    let tcp: usize = ETH_HDR_LEN + 4 * ihl;
    match ptr_at(frame, tcp, TCP_HDR_LEN) {
        Ok(t) => Some(t),
        Err(()) => None,
    }
}

/// What `put16` stores reads back.
pub proof fn lemma_put16_read(b: Seq<u8>, i: int, v: int)
    requires
        0 <= i,
        i + 2 <= b.len(),
        0 <= v < 0x10000,
    ensures
        be16(put16(b, i, v), i) == v,
        put16(b, i, v).len() == b.len(),
        forall|k: int| 0 <= k < b.len() && k != i && k != i + 1 ==> #[trigger] put16(b, i, v)[k] == b[k],
{
}

/// What `put32` stores reads back.
pub proof fn lemma_put32_read(b: Seq<u8>, i: int, v: int)
    requires
        0 <= i,
        i + 4 <= b.len(),
        0 <= v < 0x1_0000_0000,
    ensures
        be32(put32(b, i, v), i) == v,
        put32(b, i, v).len() == b.len(),
        forall|k: int| 0 <= k < b.len() && (k < i || k >= i + 4) ==> #[trigger] put32(b, i, v)[k] == b[k],
{
    let b1 = put16(b, i, v / 0x10000);
    lemma_put16_read(b, i, v / 0x10000);
    lemma_put16_read(b1, i + 2, v % 0x10000);
    assert(be16(put32(b, i, v), i) == be16(b1, i));
}

} // verus!
