//! The per-role frame programs that run at the earliest ingress hook: the classifier
//! predicate of each role, the hardworker's reflection (with its payload snapshot into
//! the ring), the sensor's return-path rewrite, and the logger's observation hook.
use vstd::prelude::*;
use crate::checksum::{checksum_update, fold16, update_checksum};
use crate::config::ConstConfig;
use crate::frame::{
    dst_port, has_headers, ip_check, ip_dst, ip_src, locate_tcp,
    payload_offset, psh, ptr_at, put16, put32, put_bytes, read_be16, read_be32, src_port,
    tcp_check, tcp_offset, tos, ETH_HDR_LEN, IPV4_HDR_LEN, TCP_HDR_LEN, lemma_put16_read, lemma_put32_read,
    write_be16, write_be32, write_mac, ETH_DST, ETH_SRC,
    IPV4_CHECK, IPV4_DST, IPV4_SRC, IPV4_TOS, TCP_CHECK, TCP_DOFF, TCP_DPORT, TCP_FLAGS,
    TCP_SPORT,
};
use crate::ring::Ring;

verus! {

/// What happens to a frame after its program ran.
#[derive(Clone, Copy, Debug, PartialEq, Eq)]
pub enum XdpAction {
    /// Dropped: the frame is too short for the headers the program reads.
    Aborted,
    /// Handed to the kernel stack.
    Pass,
    /// Sent back out of the interface it came in on.
    Tx,
}

/// The outcome of the hardworker's payload snapshot.
#[derive(Clone, Copy, Debug, PartialEq, Eq)]
pub enum Snapshot {
    /// The frame was not reflected, or its PSH flag is clear.
    NotRequested,
    /// One record was published on the ring.
    Stored,
    /// The ring had no room ("ring_buf full"); the frame was still reflected.
    RingFull,
    /// The payload lies outside the frame; the frame was still reflected.
    OutOfBounds,
}

/// The hardworker program's result.
#[derive(Clone, Copy, Debug, PartialEq, Eq)]
pub struct Verdict {
    pub action: XdpAction,
    pub snapshot: Snapshot,
}

/// The classifier predicate's answer.
#[derive(Clone, Copy, Debug, PartialEq, Eq)]
pub enum Class {
    /// The frame is shorter than the header stack.
    Short,
    /// The frame is not selected.
    Miss,
    /// The frame is selected.
    Hit,
}

/// Payload length at which a payload shorter than the snapshot is still taken, padded
/// with zeros.
pub const FALLBACK_PAYLOAD_LEN: usize = 600;

/// The hardworker selects a frame whose TOS is the mark and whose TCP destination port
/// is the mark's port, unless it is already addressed to the logger (a frame it
/// reflected itself, looped back).
pub open spec fn hardworker_hit(b: Seq<u8>, c: ConstConfig) -> bool {
    tos(b) == c.mark.tos && dst_port(b) == c.mark.port && ip_dst(b) != c.ip.logger
}

/// The sensor selects a frame from the logger whose TCP source port is the mark's port.
pub open spec fn sensor_hit(b: Seq<u8>, c: ConstConfig) -> bool {
    ip_src(b) == c.ip.logger && src_port(b) == c.mark.port
}

/// The logger selects a frame whose TOS is the mark.
pub open spec fn logger_hit(b: Seq<u8>, c: ConstConfig) -> bool {
    tos(b) == c.mark.tos
}

/// The class of a frame under a role's predicate.
pub open spec fn class_of(b: Seq<u8>, hit: bool) -> Class {
    if !has_headers(b) {
        Class::Short
    } else if hit {
        Class::Hit
    } else {
        Class::Miss
    }
}

/// The low 16 bits of an address: the half that differs between hosts of one /16.
pub open spec fn low_half(addr: int) -> int {
    addr % 0x10000
}

/// The reflected frame: from the hardworker to the logger at layer 2, with both
/// checksums updated by the change of the destination's low half, and addressed to the
/// logger at layer 3 (the address is stored last).
pub open spec fn reflected(b: Seq<u8>, c: ConstConfig) -> Seq<u8> {
    let old = low_half(ip_dst(b));
    let new = low_half(c.ip.logger as int);
    let b1 = put_bytes(b, ETH_SRC as int, c.mac.hardworker@);
    let b2 = put_bytes(b1, ETH_DST as int, c.mac.logger@);
    let b3 = put16(b2, IPV4_CHECK as int, checksum_update(ip_check(b), old, new));
    let b4 = put16(b3, tcp_offset(b) + TCP_CHECK, checksum_update(tcp_check(b), old, new));
    put32(b4, IPV4_DST as int, c.ip.logger as int)
}

/// The masqueraded frame: from the hardworker at layer 2, with both checksums updated by
/// the change of the source's low half, and from the hardworker at layer 3 (the address
/// is stored last).
pub open spec fn masqueraded(b: Seq<u8>, c: ConstConfig) -> Seq<u8> {
    let old = low_half(ip_src(b));
    let new = low_half(c.ip.hardworker as int);
    let b1 = put_bytes(b, ETH_SRC as int, c.mac.hardworker@);
    let b2 = put16(b1, IPV4_CHECK as int, checksum_update(ip_check(b), old, new));
    let b3 = put16(b2, tcp_offset(b) + TCP_CHECK, checksum_update(tcp_check(b), old, new));
    put32(b3, IPV4_SRC as int, c.ip.hardworker as int)
}

/// The record that a snapshot of the frame's payload publishes: `size` bytes from the
/// payload start when they lie in the frame; else, when exactly `FALLBACK_PAYLOAD_LEN`
/// payload bytes are there, those bytes padded with zeros to `size`; else none.
pub open spec fn snapshot_of(b: Seq<u8>, size: int) -> Option<Seq<u8>> {
    let p = payload_offset(b);
    if p + size <= b.len() {
        Some(b.subrange(p, p + size))
    } else if p + FALLBACK_PAYLOAD_LEN == b.len() {
        Some(b.subrange(p, b.len() as int) + Seq::new((size - FALLBACK_PAYLOAD_LEN) as nat, |i: int| 0u8))
    } else {
        None
    }
}

/// The hardworker's classifier predicate.
pub fn classify_hardworker(frame: &Vec<u8>, consts: &ConstConfig) -> (r: Class)
    ensures
        r == class_of(frame@, hardworker_hit(frame@, *consts)),
{
    match locate_tcp(frame) {
        None => Class::Short,
        Some(t) => {
            if frame[IPV4_TOS] == consts.mark.tos && read_be16(frame, t + TCP_DPORT)
                == consts.mark.port && read_be32(frame, IPV4_DST) != consts.ip.logger {
                Class::Hit
            } else {
                Class::Miss
            }
        },
    }
}

/// The sensor's classifier predicate.
pub fn classify_sensor(frame: &Vec<u8>, consts: &ConstConfig) -> (r: Class)
    ensures
        r == class_of(frame@, sensor_hit(frame@, *consts)),
{
    match locate_tcp(frame) {
        None => Class::Short,
        Some(t) => {
            if read_be32(frame, IPV4_SRC) == consts.ip.logger && read_be16(frame, t + TCP_SPORT)
                == consts.mark.port {
                Class::Hit
            } else {
                Class::Miss
            }
        },
    }
}

/// The logger's classifier predicate.
pub fn classify_logger(frame: &Vec<u8>, consts: &ConstConfig) -> (r: Class)
    ensures
        r == class_of(frame@, logger_hit(frame@, *consts)),
{
    match locate_tcp(frame) {
        None => Class::Short,
        Some(_) => {
            if frame[IPV4_TOS] == consts.mark.tos {
                Class::Hit
            } else {
                Class::Miss
            }
        },
    }
}

/// Copies the snapshot record of a frame's payload, the TCP header being at `t`.
pub fn take_snapshot(frame: &Vec<u8>, t: usize, size: usize) -> (r: Option<Vec<u8>>)
    requires
        has_headers(frame@),
        t == tcp_offset(frame@),
    ensures
        r matches Some(e) ==> snapshot_of(frame@, size as int) == Some(e@),
        r is None ==> snapshot_of(frame@, size as int) is None,
{
    let len: usize = frame.len();
    let doff: usize = (frame[t + TCP_DOFF] / 16) as usize;
    if 4 * doff > len - t {
        return None;
    }
    let p: usize = t + 4 * doff;
    let mut e: Vec<u8> = Vec::new();
    if ptr_at(frame, p, size).is_ok() {
        let mut k: usize = 0;
        while k < size
            invariant
                k <= size,
                len == frame@.len(),
                p + size <= frame@.len(),
                e@ == frame@.subrange(p as int, p + k),
            decreases size - k,
        {
            e.push(frame[p + k]);
            k = k + 1;
            assert(e@ =~= frame@.subrange(p as int, p + k));
        }
        Some(e)
    } else if len - p == FALLBACK_PAYLOAD_LEN {
        let mut k: usize = 0;
        while k < FALLBACK_PAYLOAD_LEN
            invariant
                k <= FALLBACK_PAYLOAD_LEN,
                len == frame@.len(),
                p + FALLBACK_PAYLOAD_LEN == frame@.len(),
                e@ == frame@.subrange(p as int, p + k),
            decreases FALLBACK_PAYLOAD_LEN - k,
        {
            e.push(frame[p + k]);
            k = k + 1;
            assert(e@ =~= frame@.subrange(p as int, p + k));
        }
        let ghost copied = e@;
        while k < size
            invariant
                FALLBACK_PAYLOAD_LEN <= k <= size,
                copied.len() == FALLBACK_PAYLOAD_LEN,
                e@ == copied + Seq::new((k - FALLBACK_PAYLOAD_LEN) as nat, |i: int| 0u8),
            decreases size - k,
        {
            e.push(0u8);
            k = k + 1;
            assert(e@ =~= copied + Seq::new((k - FALLBACK_PAYLOAD_LEN) as nat, |i: int| 0u8));
        }
        Some(e)
    } else {
        None
    }
}

/// Rewrites a selected frame so that it goes back to the logger.
fn reflect(frame: &mut Vec<u8>, t: usize, consts: &ConstConfig)
    requires
        has_headers(old(frame)@),
        t == tcp_offset(old(frame)@),
    ensures
        final(frame)@ == reflected(old(frame)@, *consts),
{
    let ip_csum: u16 = read_be16(frame, IPV4_CHECK);
    let tcp_csum: u16 = read_be16(frame, t + TCP_CHECK);
    let old_ip: u16 = (read_be32(frame, IPV4_DST) % 0x10000) as u16;
    let new_ip: u16 = (consts.ip.logger % 0x10000) as u16;
    write_mac(frame, ETH_SRC, &consts.mac.hardworker);
    write_mac(frame, ETH_DST, &consts.mac.logger);
    write_be16(frame, IPV4_CHECK, update_checksum(ip_csum, old_ip, new_ip));
    write_be16(frame, t + TCP_CHECK, update_checksum(tcp_csum, old_ip, new_ip));
    write_be32(frame, IPV4_DST, consts.ip.logger);
}

/// Rewrites a selected return-path frame so that it appears to come from the hardworker.
fn masquerade(frame: &mut Vec<u8>, t: usize, consts: &ConstConfig)
    requires
        has_headers(old(frame)@),
        t == tcp_offset(old(frame)@),
    ensures
        final(frame)@ == masqueraded(old(frame)@, *consts),
{
    let ip_csum: u16 = read_be16(frame, IPV4_CHECK);
    let tcp_csum: u16 = read_be16(frame, t + TCP_CHECK);
    let old_ip: u16 = (read_be32(frame, IPV4_SRC) % 0x10000) as u16;
    let new_ip: u16 = (consts.ip.hardworker % 0x10000) as u16;
    write_mac(frame, ETH_SRC, &consts.mac.hardworker);
    write_be16(frame, IPV4_CHECK, update_checksum(ip_csum, old_ip, new_ip));
    write_be16(frame, t + TCP_CHECK, update_checksum(tcp_csum, old_ip, new_ip));
    write_be32(frame, IPV4_SRC, consts.ip.hardworker);
}

/// The hardworker program. A frame too short for its headers is aborted, an unselected
/// one passed untouched. A selected one is reflected to the logger and transmitted;
/// before that, when its PSH flag is set, its payload snapshot is published on the ring
/// if the ring has room and the payload can be read.
pub fn hardworker(frame: &mut Vec<u8>, consts: &ConstConfig, ring: &mut Ring) -> (v: Verdict)
    requires
        old(ring).wf(),
        old(ring).record_size() == consts.data.size,
    ensures
        final(ring).wf(),
        final(ring).record_size() == old(ring).record_size(),
        final(ring).capacity_bytes() == old(ring).capacity_bytes(),
        old(frame)@.len() < ETH_HDR_LEN + IPV4_HDR_LEN + TCP_HDR_LEN ==> v.action
            == XdpAction::Aborted && final(frame)@ == old(frame)@ && final(ring)@ == old(ring)@,
        !has_headers(old(frame)@) ==> v == (Verdict {
            action: XdpAction::Aborted,
            snapshot: Snapshot::NotRequested,
        }) && final(frame)@ == old(frame)@ && final(ring)@ == old(ring)@,
        has_headers(old(frame)@) && !hardworker_hit(old(frame)@, *consts) ==> v == (Verdict {
            action: XdpAction::Pass,
            snapshot: Snapshot::NotRequested,
        }) && final(frame)@ == old(frame)@ && final(ring)@ == old(ring)@,
        has_headers(old(frame)@) && hardworker_hit(old(frame)@, *consts) ==> {
            &&& v.action == XdpAction::Tx
            &&& final(frame)@ == reflected(old(frame)@, *consts)
            &&& !psh(old(frame)@) ==> v.snapshot == Snapshot::NotRequested && final(ring)@ == old(
                ring,
            )@
            &&& psh(old(frame)@) && !old(ring).has_room_spec() ==> v.snapshot == Snapshot::RingFull
                && final(ring)@ == old(ring)@
            &&& psh(old(frame)@) && old(ring).has_room_spec() ==> match snapshot_of(
                old(frame)@,
                consts.data.size as int,
            ) {
                Some(e) => v.snapshot == Snapshot::Stored && final(ring)@ == old(ring)@.push(e),
                None => v.snapshot == Snapshot::OutOfBounds && final(ring)@ == old(ring)@,
            }
        },
{
    let t: usize = match locate_tcp(frame) {
        None => {
            return Verdict { action: XdpAction::Aborted, snapshot: Snapshot::NotRequested };
        },
        Some(t) => t,
    };
    if !(frame[IPV4_TOS] == consts.mark.tos && read_be16(frame, t + TCP_DPORT)
        == consts.mark.port && read_be32(frame, IPV4_DST) != consts.ip.logger) {
        return Verdict { action: XdpAction::Pass, snapshot: Snapshot::NotRequested };
    }
    let snapshot = if (frame[t + TCP_FLAGS] / 8) % 2 == 1 {
        if !ring.has_room() {
            Snapshot::RingFull
        } else {
            match take_snapshot(frame, t, consts.data.size) {
                Some(e) => {
                    ring.submit(e);
                    Snapshot::Stored
                },
                None => Snapshot::OutOfBounds,
            }
        }
    } else {
        Snapshot::NotRequested
    };
    reflect(frame, t, consts);
    Verdict { action: XdpAction::Tx, snapshot }
}

/// The sensor program. A frame too short for its headers is aborted, an unselected one
/// passed untouched, a selected one masqueraded as coming from the hardworker and passed.
pub fn sensor(frame: &mut Vec<u8>, consts: &ConstConfig) -> (r: XdpAction)
    ensures
        old(frame)@.len() < ETH_HDR_LEN + IPV4_HDR_LEN + TCP_HDR_LEN ==> r == XdpAction::Aborted
            && final(frame)@ == old(frame)@,
        !has_headers(old(frame)@) ==> r == XdpAction::Aborted && final(frame)@ == old(frame)@,
        has_headers(old(frame)@) && !sensor_hit(old(frame)@, *consts) ==> r == XdpAction::Pass
            && final(frame)@ == old(frame)@,
        has_headers(old(frame)@) && sensor_hit(old(frame)@, *consts) ==> r == XdpAction::Pass
            && final(frame)@ == masqueraded(old(frame)@, *consts),
{
    let t: usize = match locate_tcp(frame) {
        None => {
            return XdpAction::Aborted;
        },
        Some(t) => t,
    };
    if read_be32(frame, IPV4_SRC) == consts.ip.logger && read_be16(frame, t + TCP_SPORT)
        == consts.mark.port {
        masquerade(frame, t, consts);
    }
    XdpAction::Pass
}

/// The logger program: an observation hook that aborts a frame too short for its
/// headers and passes every other one, selected or not, untouched.
pub fn logger(frame: &Vec<u8>, consts: &ConstConfig) -> (r: XdpAction)
    ensures
        frame@.len() < ETH_HDR_LEN + IPV4_HDR_LEN + TCP_HDR_LEN ==> r == XdpAction::Aborted,
        r == (if has_headers(frame@) {
            XdpAction::Pass
        } else {
            XdpAction::Aborted
        }),
{
    match classify_logger(frame, consts) {
        Class::Short => XdpAction::Aborted,
        Class::Miss => XdpAction::Pass,
        Class::Hit => XdpAction::Pass,
    }
}

/// A reflected frame is not selected again: it still holds its headers, but it is now
/// addressed to the logger, so a second run of the hardworker passes it untouched. A
/// selected frame is therefore changed by the hardworker exactly when its destination
/// is not yet the logger: a marked frame already addressed to the logger is passed as
/// it is, any other is readdressed.
pub proof fn lemma_reflected_not_selected(b: Seq<u8>, c: ConstConfig)
    requires
        has_headers(b),
        tos(b) == c.mark.tos,
        dst_port(b) == c.mark.port,
    ensures
        ip_dst(b) == c.ip.logger ==> !hardworker_hit(b, c),
        ip_dst(b) != c.ip.logger ==> {
            &&& hardworker_hit(b, c)
            &&& has_headers(reflected(b, c))
            &&& ip_dst(reflected(b, c)) == c.ip.logger
            &&& reflected(b, c) != b
            &&& !hardworker_hit(reflected(b, c), c)
            &&& class_of(reflected(b, c), hardworker_hit(reflected(b, c), c)) == Class::Miss
        },
{
    let t = tcp_offset(b);
    let old = low_half(ip_dst(b));
    let new = low_half(c.ip.logger as int);
    let ipc = checksum_update(ip_check(b), old, new);
    let tcpc = checksum_update(tcp_check(b), old, new);
    let b1 = put_bytes(b, ETH_SRC as int, c.mac.hardworker@);
    let b2 = put_bytes(b1, ETH_DST as int, c.mac.logger@);
    let b3 = put16(b2, IPV4_CHECK as int, ipc);
    let b4 = put16(b3, t + TCP_CHECK, tcpc);
    let r = put32(b4, IPV4_DST as int, c.ip.logger as int);
    assert(r == reflected(b, c));
    assert(0 <= fold16((0xFFFF - ip_check(b)) + (0xFFFF - old) + new) < 0x10000);
    assert(0 <= fold16((0xFFFF - tcp_check(b)) + (0xFFFF - old) + new) < 0x10000);
    lemma_put16_read(b2, IPV4_CHECK as int, ipc);
    lemma_put16_read(b3, t + TCP_CHECK, tcpc);
    lemma_put32_read(b4, IPV4_DST as int, c.ip.logger as int);
    assert(r[14] == b[14]);
    assert(tcp_offset(r) == t);
    assert(ip_dst(r) == c.ip.logger);
    if ip_dst(b) != c.ip.logger {
        assert(ip_dst(r) != ip_dst(b));
    }
}

} // verus!
