//! Checksum validity of whole frames, and the round trip over the triangle: a marked
//! frame reflected by the hardworker, passed by the logger and masqueraded by the
//! sensor arrives with valid IPv4 and TCP checksums.
use vstd::prelude::*;
use crate::checksum::{checksum_update, fold16, lemma_fold16};
use crate::classifier::{hardworker_hit, low_half, masqueraded, reflected, sensor_hit};
use crate::config::ConstConfig;
use crate::frame::{
    be16, be32, data_offset, dst_port, has_headers, ihl, ip_check, ip_dst, ip_src,
    lemma_put16_read, lemma_put32_read, payload_offset, put16, put32, put_bytes, src_port,
    tcp_check, tcp_offset, tos, ETH_HDR_LEN, ETH_SRC, IPV4_CHECK, IPV4_DST, IPV4_SRC,
    TCP_CHECK,
};

verus! {

/// Offset of the IPv4 total length.
pub const IPV4_TOT_LEN: usize = 16;

/// Offset of the IPv4 protocol byte.
pub const IPV4_PROTO: usize = 23;

/// The sum of the big-endian 16-bit words of `b[lo..hi]`, a trailing odd byte counting
/// as the high byte of a word.
pub open spec fn sum_be16(b: Seq<u8>, lo: int, hi: int) -> int
    decreases hi - lo,
{
    if hi - lo <= 0 {
        0
    } else if hi - lo == 1 {
        b[lo] as int * 0x100
    } else {
        be16(b, lo) + sum_be16(b, lo + 2, hi)
    }
}

/// A one's-complement sum over a datagram and its checksum is valid when it is all
/// ones: a non-zero multiple of 0xFFFF.
pub open spec fn ones_valid(s: int) -> bool {
    s > 0 && s % 0xFFFF == 0
}

/// The sum of the IPv4 header's words, checksum included.
pub open spec fn ip_sum(b: Seq<u8>) -> int {
    sum_be16(b, ETH_HDR_LEN as int, tcp_offset(b))
}

/// Where the TCP segment ends, by the IPv4 total length.
pub open spec fn segment_end(b: Seq<u8>) -> int {
    ETH_HDR_LEN + be16(b, IPV4_TOT_LEN as int)
}

/// The sum of the TCP pseudo-header: addresses, protocol and segment length.
pub open spec fn pseudo_sum(b: Seq<u8>) -> int {
    be16(b, 26) + be16(b, 28) + be16(b, 30) + be16(b, 32) + b[IPV4_PROTO as int] as int + (
    segment_end(b) - tcp_offset(b))
}

/// The sum of the pseudo-header and the TCP segment, checksum included.
pub open spec fn tcp_sum(b: Seq<u8>) -> int {
    pseudo_sum(b) + sum_be16(b, tcp_offset(b), segment_end(b))
}

/// The IPv4 header checksum is valid.
pub open spec fn ip_checksum_ok(b: Seq<u8>) -> bool {
    has_headers(b) && ones_valid(ip_sum(b))
}

/// The TCP segment lies in the frame and its checksum is valid.
pub open spec fn tcp_checksum_ok(b: Seq<u8>) -> bool {
    &&& has_headers(b)
    &&& tcp_offset(b) + 20 <= segment_end(b) <= b.len()
    &&& ones_valid(tcp_sum(b))
}

/// Sums over two frames that agree on `[lo, hi)` are equal.
proof fn lemma_sum_agree(b: Seq<u8>, b2: Seq<u8>, lo: int, hi: int)
    requires
        0 <= lo,
        hi <= b.len(),
        hi <= b2.len(),
        forall|k: int| lo <= k < hi ==> b[k] == b2[k],
    ensures
        sum_be16(b, lo, hi) == sum_be16(b2, lo, hi),
    decreases hi - lo,
{
    if hi - lo > 1 {
        lemma_sum_agree(b, b2, lo + 2, hi);
    }
}

/// A sum of words is not negative, and is at least its first word.
proof fn lemma_sum_lower(b: Seq<u8>, lo: int, hi: int)
    requires
        0 <= lo,
        hi <= b.len(),
    ensures
        sum_be16(b, lo, hi) >= 0,
        hi - lo >= 2 ==> sum_be16(b, lo, hi) >= be16(b, lo),
    decreases hi - lo,
{
    if hi - lo > 1 {
        lemma_sum_lower(b, lo + 2, hi);
    }
}

/// Storing a word at an aligned position inside `[lo, hi)` moves the sum by the change
/// of that word.
proof fn lemma_sum_put16(b: Seq<u8>, lo: int, hi: int, i: int, v: int)
    requires
        0 <= lo <= i,
        i + 2 <= hi <= b.len(),
        (i - lo) % 2 == 0,
        0 <= v < 0x10000,
    ensures
        sum_be16(put16(b, i, v), lo, hi) == sum_be16(b, lo, hi) - be16(b, i) + v,
    decreases hi - lo,
{
    let b2 = put16(b, i, v);
    lemma_put16_read(b, i, v);
    if i == lo {
        lemma_sum_agree(b, b2, lo + 2, hi);
    } else {
        assert(be16(b2, lo) == be16(b, lo));
        lemma_sum_put16(b, lo + 2, hi, i, v);
    }
}

/// The updated checksum is the old one plus the old word minus the new, modulo 0xFFFF.
/// Returns the multiple of 0xFFFF.
proof fn lemma_update_congruent(csum: int, old: int, new: int) -> (k: int)
    requires
        0 <= csum <= 0xFFFF,
        0 <= old <= 0xFFFF,
        0 <= new <= 0xFFFF,
    ensures
        checksum_update(csum, old, new) == csum + old - new + 0xFFFF * k,
        0 <= checksum_update(csum, old, new) <= 0xFFFF,
{
    if old == new {
        0
    } else {
        let v = (0xFFFF - csum) + (0xFFFF - old) + new;
        let kv = lemma_fold16(v);
        kv - 1
    }
}

/// Adding a multiple of 0xFFFF keeps a sum's residue.
proof fn lemma_shift_residue(s: int, k: int)
    requires
        s % 0xFFFF == 0,
    ensures
        (s + 0xFFFF * k) % 0xFFFF == 0,
{
    vstd::arithmetic::div_mod::lemma_mod_multiples_vanish(k, s, 0xFFFF);
}

/// The rewrite of one address's low half, with both checksums updated incrementally and
/// the address stored last, keeps both checksums valid when the address keeps its high
/// half and the IPv4 header is at least 20 bytes. `x` is the frame after its layer-2
/// writes, which leave every byte from 12 on as it was.
#[verifier::rlimit(40)]
proof fn lemma_address_rewrite_keeps_checksums(b: Seq<u8>, x: Seq<u8>, at: int, addr: u32)
    requires
        at == IPV4_SRC || at == IPV4_DST,
        ihl(b) >= 5,
        ip_checksum_ok(b),
        tcp_checksum_ok(b),
        x.len() == b.len(),
        forall|k: int| 12 <= k < b.len() ==> x[k] == b[k],
        be32(b, at) / 0x10000 == addr / 0x10000,
    ensures
        ({
            let old = be32(b, at) % 0x10000;
            let new = addr as int % 0x10000;
            let z1 = put16(x, IPV4_CHECK as int, checksum_update(ip_check(b), old, new));
            let z2 = put16(z1, tcp_offset(b) + TCP_CHECK, checksum_update(tcp_check(b), old, new));
            let r = put32(z2, at, addr as int);
            &&& ip_checksum_ok(r)
            &&& tcp_checksum_ok(r)
            &&& r.len() == b.len()
            &&& be32(r, at) == addr
            &&& tcp_offset(r) == tcp_offset(b)
            &&& ip_check(r) == checksum_update(ip_check(b), old, new)
            &&& tcp_check(r) == checksum_update(tcp_check(b), old, new)
            &&& forall|k: int|
                12 <= k < b.len() && !(at <= k < at + 4) && k != 24 && k != 25 && k
                    != tcp_offset(b) + 16 && k != tcp_offset(b) + 17 ==> #[trigger] r[k] == b[k]
        }),
{
    let t = tcp_offset(b);
    let e = segment_end(b);
    let old = be32(b, at) % 0x10000;
    let new = addr as int % 0x10000;
    let ipc = checksum_update(ip_check(b), old, new);
    let tcpc = checksum_update(tcp_check(b), old, new);
    let kip = lemma_update_congruent(ip_check(b), old, new);
    let ktcp = lemma_update_congruent(tcp_check(b), old, new);
    let z1 = put16(x, IPV4_CHECK as int, ipc);
    let z2 = put16(z1, t + TCP_CHECK, tcpc);
    let y1 = put16(z2, at, addr as int / 0x10000);
    let r = put32(z2, at, addr as int);
    assert(be32(b, at) / 0x10000 == be16(b, at));
    assert(be32(b, at) % 0x10000 == be16(b, at + 2));
    lemma_put16_read(x, IPV4_CHECK as int, ipc);
    lemma_put16_read(z1, t + TCP_CHECK, tcpc);
    lemma_put16_read(z2, at, addr as int / 0x10000);
    lemma_put16_read(y1, at + 2, addr as int % 0x10000);
    lemma_put32_read(z2, at, addr as int);
    assert(r[14] == b[14]);
    assert(tcp_offset(r) == t);
    assert(be16(r, IPV4_TOT_LEN as int) == be16(b, IPV4_TOT_LEN as int));
    assert(segment_end(r) == e);
    assert(r[IPV4_PROTO as int] == b[IPV4_PROTO as int]);
    // The IPv4 header: the checksum and the address's low half move by amounts that
    // cancel modulo 0xFFFF; the high half is rewritten unchanged.
    lemma_sum_agree(b, x, ETH_HDR_LEN as int, t);
    lemma_sum_put16(x, ETH_HDR_LEN as int, t, IPV4_CHECK as int, ipc);
    lemma_sum_agree(z1, z2, ETH_HDR_LEN as int, t);
    lemma_sum_put16(z2, ETH_HDR_LEN as int, t, at, addr as int / 0x10000);
    lemma_sum_put16(y1, ETH_HDR_LEN as int, t, at + 2, addr as int % 0x10000);
    assert(be16(x, IPV4_CHECK as int) == ip_check(b));
    assert(be16(z2, at) == be16(b, at));
    assert(be16(y1, at + 2) == be16(b, at + 2));
    assert(ip_sum(r) == ip_sum(b) + 0xFFFF * kip);
    lemma_shift_residue(ip_sum(b), kip);
    lemma_sum_lower(r, ETH_HDR_LEN as int, t);
    assert(be16(r, ETH_HDR_LEN as int) >= 0x100 * 5);
    // The TCP segment: the checksum word moves; the pseudo-header moves by the
    // address's low half; the two cancel modulo 0xFFFF.
    lemma_sum_agree(b, z1, t, e);
    lemma_sum_put16(z1, t, e, t + TCP_CHECK, tcpc);
    lemma_sum_agree(z2, r, t, e);
    assert(be16(z1, t + TCP_CHECK) == tcp_check(b));
    if at == IPV4_SRC {
        assert(be16(r, 26) == be16(b, 26));
        assert(be16(r, 28) == new);
        assert(be16(r, 30) == be16(b, 30));
        assert(be16(r, 32) == be16(b, 32));
    } else {
        assert(be16(r, 26) == be16(b, 26));
        assert(be16(r, 28) == be16(b, 28));
        assert(be16(r, 30) == be16(b, 30));
        assert(be16(r, 32) == new);
    }
    assert(pseudo_sum(r) == pseudo_sum(b) - old + new);
    assert(tcp_sum(r) == tcp_sum(b) + 0xFFFF * ktcp);
    lemma_shift_residue(tcp_sum(b), ktcp);
    lemma_sum_lower(r, t, e);
}

/// Updating a checksum for `a -> b` and then for `b -> a` gives it back, for every
/// checksum but 0xFFFF (which comes back as the other zero, 0x0000).
pub proof fn lemma_update_restores(csum: int, a: int, b: int)
    requires
        0 <= csum < 0xFFFF,
        0 <= a <= 0xFFFF,
        0 <= b <= 0xFFFF,
    ensures
        checksum_update(checksum_update(csum, a, b), b, a) == csum,
{
    if a != b {
        let v1 = (0xFFFF - csum) + (0xFFFF - a) + b;
        let k1 = lemma_fold16(v1);
        let c1 = checksum_update(csum, a, b);
        assert(c1 == 0xFFFF - fold16(v1));
        assert(v1 > 0);
        let v2 = (0xFFFF - c1) + (0xFFFF - b) + a;
        let k2 = lemma_fold16(v2);
        assert(v2 > 0);
        let c2 = 0xFFFF - fold16(v2);
        assert(c2 - csum == 0xFFFF * (k1 + k2 - 2)) by (nonlinear_arith)
            requires
                fold16(v1) == v1 - 0xFFFF * k1,
                fold16(v2) == v2 - 0xFFFF * k2,
                c1 == 0xFFFF - fold16(v1),
                v1 == (0xFFFF - csum) + (0xFFFF - a) + b,
                v2 == (0xFFFF - c1) + (0xFFFF - b) + a,
                c2 == 0xFFFF - fold16(v2),
        ;
        assert(k1 + k2 - 2 == 0) by (nonlinear_arith)
            requires
                -0xFFFF < 0xFFFF * (k1 + k2 - 2) < 0xFFFF,
        ;
    }
}

/// The hardworker's reflection keeps both checksums of a frame valid, when the frame's
/// destination shares its high half with the logger's address and the IPv4 header is at
/// least 20 bytes. It rewrites only the layer-2 addresses, the destination and the two
/// checksum fields, which take the incremental update for the destination's low half.
pub proof fn lemma_reflect_keeps_checksums(f: Seq<u8>, c: ConstConfig)
    requires
        ihl(f) >= 5,
        ip_checksum_ok(f),
        tcp_checksum_ok(f),
        ip_dst(f) / 0x10000 == c.ip.logger / 0x10000,
    ensures
        ({
            let r = reflected(f, c);
            let old = low_half(ip_dst(f));
            let new = low_half(c.ip.logger as int);
            &&& ip_checksum_ok(r)
            &&& tcp_checksum_ok(r)
            &&& r.len() == f.len()
            &&& ip_dst(r) == c.ip.logger
            &&& tcp_offset(r) == tcp_offset(f)
            &&& ip_check(r) == checksum_update(ip_check(f), old, new)
            &&& tcp_check(r) == checksum_update(tcp_check(f), old, new)
            &&& forall|k: int|
                12 <= k < f.len() && !(IPV4_DST <= k < IPV4_DST + 4) && k != 24 && k != 25 && k
                    != tcp_offset(f) + 16 && k != tcp_offset(f) + 17 ==> #[trigger] r[k] == f[k]
        }),
{
    let x = put_bytes(put_bytes(f, ETH_SRC as int, c.mac.hardworker@), 0, c.mac.logger@);
    assert forall|k: int| 12 <= k < f.len() implies x[k] == f[k] by {}
    lemma_address_rewrite_keeps_checksums(f, x, IPV4_DST as int, c.ip.logger);
}

/// The sensor's masquerade keeps both checksums of a frame valid, when the frame's
/// source shares its high half with the hardworker's address and the IPv4 header is at
/// least 20 bytes. It rewrites only the layer-2 source, the IPv4 source and the two
/// checksum fields, which take the incremental update for the source's low half.
pub proof fn lemma_masquerade_keeps_checksums(f: Seq<u8>, c: ConstConfig)
    requires
        ihl(f) >= 5,
        ip_checksum_ok(f),
        tcp_checksum_ok(f),
        ip_src(f) / 0x10000 == c.ip.hardworker / 0x10000,
    ensures
        ({
            let r = masqueraded(f, c);
            let old = low_half(ip_src(f));
            let new = low_half(c.ip.hardworker as int);
            &&& ip_checksum_ok(r)
            &&& tcp_checksum_ok(r)
            &&& r.len() == f.len()
            &&& ip_src(r) == c.ip.hardworker
            &&& r.subrange(6, 12) == c.mac.hardworker@
            &&& ip_check(r) == checksum_update(ip_check(f), old, new)
            &&& tcp_check(r) == checksum_update(tcp_check(f), old, new)
            &&& forall|k: int|
                12 <= k < f.len() && !(IPV4_SRC <= k < IPV4_SRC + 4) && k != 24 && k != 25 && k
                    != tcp_offset(f) + 16 && k != tcp_offset(f) + 17 ==> #[trigger] r[k] == f[k]
        }),
{
    let x = put_bytes(f, ETH_SRC as int, c.mac.hardworker@);
    assert forall|k: int| 12 <= k < f.len() implies x[k] == f[k] by {}
    lemma_address_rewrite_keeps_checksums(f, x, IPV4_SRC as int, c.ip.hardworker);
    let r = masqueraded(f, c);
    assert(r.subrange(6, 12) =~= c.mac.hardworker@);
}

/// The round trip over the triangle. A frame that the logger sends to the hardworker
/// (from the logger's address, TOS and destination port the mark, source port the
/// mark's port), with valid checksums, is reflected by the hardworker, passed by the
/// logger, and selected and masqueraded by the sensor. What arrives comes from the
/// hardworker's IPv4 and hardware addresses, carries the same TCP payload bytes, and
/// has valid IPv4 and TCP checksums. This holds when the logger and the hardworker
/// have different addresses that share their high half (the /16 the incremental update
/// relies on) and the IPv4 and TCP headers are at least 20 bytes each, so that no
/// rewritten field lies inside another header or the payload.
pub proof fn lemma_round_trip(f: Seq<u8>, c: ConstConfig)
    requires
        has_headers(f),
        ip_checksum_ok(f),
        tcp_checksum_ok(f),
        ihl(f) >= 5,
        data_offset(f) >= 5,
        ip_src(f) == c.ip.logger,
        ip_dst(f) == c.ip.hardworker,
        tos(f) == c.mark.tos,
        dst_port(f) == c.mark.port,
        src_port(f) == c.mark.port,
        c.ip.logger / 0x10000 == c.ip.hardworker / 0x10000,
        c.ip.logger != c.ip.hardworker,
    ensures
        hardworker_hit(f, c),
        has_headers(reflected(f, c)),
        sensor_hit(reflected(f, c), c),
        ({
            let g = masqueraded(reflected(f, c), c);
            &&& g.len() == f.len()
            &&& ip_src(g) == c.ip.hardworker
            &&& g.subrange(6, 12) == c.mac.hardworker@
            &&& forall|k: int| payload_offset(f) <= k < f.len() ==> #[trigger] g[k] == f[k]
            &&& ip_checksum_ok(g)
            &&& tcp_checksum_ok(g)
        }),
{
    let t = tcp_offset(f);
    lemma_reflect_keeps_checksums(f, c);
    let f1 = reflected(f, c);
    assert(f1[14] == f[14]);
    assert(ihl(f1) >= 5);
    assert(has_headers(f1));
    assert(f1[26] == f[26] && f1[27] == f[27] && f1[28] == f[28] && f1[29] == f[29]);
    assert(ip_src(f1) == ip_src(f));
    assert(f1[t] == f[t] && f1[t + 1] == f[t + 1]);
    assert(src_port(f1) == src_port(f));
    lemma_masquerade_keeps_checksums(f1, c);
    let g = masqueraded(f1, c);
    assert forall|k: int| payload_offset(f) <= k < f.len() implies #[trigger] g[k] == f[k] by {
        assert(k >= t + 20);
        assert(f1[k] == f[k]);
    }
}

/// Over the round trip both checksum fields come back to their first values: the
/// destination's low half is traded for the logger's and the source's logger half for
/// the hardworker's, two updates that undo each other. This holds for checksum fields
/// other than 0xFFFF, which come back as the other zero.
pub proof fn lemma_round_trip_restores_checksums(f: Seq<u8>, c: ConstConfig)
    requires
        has_headers(f),
        ip_checksum_ok(f),
        tcp_checksum_ok(f),
        ihl(f) >= 5,
        ip_src(f) == c.ip.logger,
        ip_dst(f) == c.ip.hardworker,
        c.ip.logger / 0x10000 == c.ip.hardworker / 0x10000,
        ip_check(f) != 0xFFFF,
        tcp_check(f) != 0xFFFF,
    ensures
        ip_check(masqueraded(reflected(f, c), c)) == ip_check(f),
        tcp_check(masqueraded(reflected(f, c), c)) == tcp_check(f),
{
    let t = tcp_offset(f);
    lemma_reflect_keeps_checksums(f, c);
    let f1 = reflected(f, c);
    assert(f1[14] == f[14]);
    assert(f1[26] == f[26] && f1[27] == f[27] && f1[28] == f[28] && f1[29] == f[29]);
    assert(ip_src(f1) == ip_src(f));
    lemma_masquerade_keeps_checksums(f1, c);
    let h = low_half(c.ip.hardworker as int);
    let l = low_half(c.ip.logger as int);
    lemma_update_restores(ip_check(f), h, l);
    lemma_update_restores(tcp_check(f), h, l);
}

} // verus!
