use xdp_relay::classifier::{
    classify_hardworker, classify_logger, classify_sensor, hardworker, logger, sensor,
    take_snapshot, Class, Snapshot, Verdict, XdpAction,
};
use xdp_relay::config::{ConstConfig, DataConfig, IpAddresses, MacAddresses, MarkConfig};
use xdp_relay::consumer::Consumer;
use xdp_relay::ring::Ring;

const MAC_LOGGER: [u8; 6] = [0x2c, 0xcf, 0x67, 0x3e, 0x3a, 0x02];
const MAC_HARDWORKER: [u8; 6] = [0x54, 0x6c, 0xeb, 0x72, 0xbd, 0x84];
const MAC_SENSOR: [u8; 6] = [0x2c, 0xcf, 0x67, 0x3e, 0x3b, 0x03];
const IP_LOGGER: u32 = 0xc0a8_015d; // 192.168.1.93
const IP_HARDWORKER: u32 = 0xc0a8_0160; // 192.168.1.96
const IP_SENSOR: u32 = 0xc0a8_014f; // 192.168.1.79
const CLIENT_PORT: u16 = 40000;

fn consts(size: usize) -> ConstConfig {
    ConstConfig {
        mac: MacAddresses { logger: MAC_LOGGER, hardworker: MAC_HARDWORKER, sensor: MAC_SENSOR },
        ip: IpAddresses { logger: IP_LOGGER, hardworker: IP_HARDWORKER, sensor: IP_SENSOR },
        mark: MarkConfig { tos: 0x68, port: 9000 },
        data: DataConfig { mtu: 1500, size },
    }
}

fn be16(b: &[u8], i: usize) -> u16 {
    u16::from_be_bytes([b[i], b[i + 1]])
}

fn ones_sum(words: impl Iterator<Item = u32>) -> u32 {
    let mut s: u32 = words.sum();
    while s > 0xFFFF {
        s = (s >> 16) + (s & 0xFFFF);
    }
    s
}

fn words(b: &[u8]) -> impl Iterator<Item = u32> + '_ {
    b.chunks(2).map(|c| if c.len() == 2 { u16::from_be_bytes([c[0], c[1]]) as u32 } else { (c[0] as u32) << 8 })
}

fn ip_header(frame: &[u8]) -> &[u8] {
    let ihl = (frame[14] & 0x0F) as usize;
    &frame[14..14 + 4 * ihl]
}

fn tcp_segment(frame: &[u8]) -> &[u8] {
    let ihl = (frame[14] & 0x0F) as usize;
    let end = 14 + be16(frame, 16) as usize;
    &frame[14 + 4 * ihl..end]
}

fn pseudo_words(frame: &[u8]) -> Vec<u32> {
    let seg = tcp_segment(frame);
    vec![
        be16(frame, 26) as u32,
        be16(frame, 28) as u32,
        be16(frame, 30) as u32,
        be16(frame, 32) as u32,
        frame[23] as u32,
        seg.len() as u32,
    ]
}

fn ip_checksum_valid(frame: &[u8]) -> bool {
    ones_sum(words(ip_header(frame))) == 0xFFFF
}

fn tcp_checksum_valid(frame: &[u8]) -> bool {
    let all = pseudo_words(frame).into_iter().chain(words(tcp_segment(frame)));
    ones_sum(all) == 0xFFFF
}

/// An Ethernet / IPv4 / TCP frame with valid checksums.
fn build_frame(
    tos: u8,
    src: u32,
    dst: u32,
    sport: u16,
    dport: u16,
    flags: u8,
    payload: &[u8],
) -> Vec<u8> {
    let mut f = Vec::new();
    f.extend_from_slice(&MAC_HARDWORKER);
    f.extend_from_slice(&MAC_LOGGER);
    f.extend_from_slice(&[0x08, 0x00]);
    let tot_len = (20 + 20 + payload.len()) as u16;
    f.extend_from_slice(&[0x45, tos]);
    f.extend_from_slice(&tot_len.to_be_bytes());
    f.extend_from_slice(&[0x1c, 0x46, 0x40, 0x00, 0x40, 0x06, 0x00, 0x00]);
    f.extend_from_slice(&src.to_be_bytes());
    f.extend_from_slice(&dst.to_be_bytes());
    f.extend_from_slice(&sport.to_be_bytes());
    f.extend_from_slice(&dport.to_be_bytes());
    f.extend_from_slice(&[0x00, 0x00, 0x10, 0x01, 0x00, 0x00, 0x00, 0x00]);
    f.extend_from_slice(&[0x50, flags, 0xff, 0xff, 0x00, 0x00, 0x00, 0x00]);
    f.extend_from_slice(payload);
    let ip = !(ones_sum(words(ip_header(&f))) as u16);
    f[24..26].copy_from_slice(&ip.to_be_bytes());
    let tcp = !(ones_sum(pseudo_words(&f).into_iter().chain(words(tcp_segment(&f)))) as u16);
    f[50..52].copy_from_slice(&tcp.to_be_bytes());
    assert!(ip_checksum_valid(&f) && tcp_checksum_valid(&f));
    f
}

const ACK: u8 = 0x10;
const PSH_ACK: u8 = 0x18;

#[test]
fn reflect_without_payload() {
    let c = consts(64);
    let mut ring = Ring::new(64);
    let mut f = build_frame(0x68, IP_LOGGER, IP_HARDWORKER, CLIENT_PORT, 9000, ACK, &[]);
    let before = f.clone();
    let v = hardworker(&mut f, &c, &mut ring);
    assert_eq!(v, Verdict { action: XdpAction::Tx, snapshot: Snapshot::NotRequested });
    assert_eq!(&f[0..6], &MAC_LOGGER);
    assert_eq!(&f[6..12], &MAC_HARDWORKER);
    assert_eq!(&f[30..34], &[192, 168, 1, 93]);
    assert_eq!(&f[26..30], &before[26..30]);
    assert_eq!(ring.len(), 0);
    let delta_ip = xdp_relay::checksum::update_checksum(be16(&before, 24), 0x0160, 0x015d);
    let delta_tcp = xdp_relay::checksum::update_checksum(be16(&before, 50), 0x0160, 0x015d);
    assert_eq!(be16(&f, 24), delta_ip);
    assert_eq!(be16(&f, 50), delta_tcp);
    assert!(ip_checksum_valid(&f));
    assert!(tcp_checksum_valid(&f));
}

#[test]
fn reflect_with_payload_stores_snapshot() {
    let size = 64;
    let c = consts(size);
    let mut ring = Ring::new(size);
    let payload = vec![0xAAu8; size];
    let mut f = build_frame(0x68, IP_LOGGER, IP_HARDWORKER, CLIENT_PORT, 9000, PSH_ACK, &payload);
    let v = hardworker(&mut f, &c, &mut ring);
    assert_eq!(v, Verdict { action: XdpAction::Tx, snapshot: Snapshot::Stored });
    assert_eq!(ring.len(), 1);
    assert_eq!(&f[54..], &payload[..]);
    let mut consumer = Consumer::new(size);
    assert_eq!(consumer.drain(&mut ring), 1);
    assert_eq!(consumer.counters.success, 1);
    assert_eq!(consumer.counters.align_fail, 0);
    assert_eq!(consumer.reference, Some(vec![0xAAu8; size]));
    assert_eq!(ring.len(), 0);
}

#[test]
fn ring_saturation_still_reflects() {
    let size = 64;
    let c = consts(size);
    let mut ring = Ring::new(size);
    let payload = vec![0x11u8; size];
    for _ in 0..16 {
        let mut f =
            build_frame(0x68, IP_LOGGER, IP_HARDWORKER, CLIENT_PORT, 9000, PSH_ACK, &payload);
        let v = hardworker(&mut f, &c, &mut ring);
        assert_eq!(v.snapshot, Snapshot::Stored);
    }
    assert_eq!(ring.len(), 16);
    let mut f = build_frame(0x68, IP_LOGGER, IP_HARDWORKER, CLIENT_PORT, 9000, PSH_ACK, &payload);
    let v = hardworker(&mut f, &c, &mut ring);
    assert_eq!(v, Verdict { action: XdpAction::Tx, snapshot: Snapshot::RingFull });
    assert_eq!(ring.len(), 16);
    assert_eq!(&f[30..34], &[192, 168, 1, 93]);
}

#[test]
fn snapshot_out_of_bounds_still_reflects() {
    let c = consts(64);
    let mut ring = Ring::new(64);
    let mut f = build_frame(0x68, IP_LOGGER, IP_HARDWORKER, CLIENT_PORT, 9000, PSH_ACK, &[0x22; 10]);
    let v = hardworker(&mut f, &c, &mut ring);
    assert_eq!(v, Verdict { action: XdpAction::Tx, snapshot: Snapshot::OutOfBounds });
    assert_eq!(ring.len(), 0);
    assert_eq!(&f[0..6], &MAC_LOGGER);
}

#[test]
fn snapshot_fallback_pads_sentinel_payload() {
    let size = 1024;
    let payload = vec![0x33u8; 600];
    let f = build_frame(0x68, IP_LOGGER, IP_HARDWORKER, CLIENT_PORT, 9000, PSH_ACK, &payload);
    let e = take_snapshot(&f, 34, size).expect("the sentinel length is padded");
    assert_eq!(e.len(), size);
    assert!(e[..600].iter().all(|b| *b == 0x33));
    assert!(e[600..].iter().all(|b| *b == 0));
    let short = build_frame(0x68, IP_LOGGER, IP_HARDWORKER, CLIENT_PORT, 9000, PSH_ACK, &[1; 599]);
    assert_eq!(take_snapshot(&short, 34, size), None);
}

#[test]
fn snapshot_takes_leading_window() {
    let payload: Vec<u8> = (0..100u8).collect();
    let f = build_frame(0x68, IP_LOGGER, IP_HARDWORKER, CLIENT_PORT, 9000, PSH_ACK, &payload);
    assert_eq!(take_snapshot(&f, 34, 8), Some((0..8u8).collect::<Vec<u8>>()));
}

#[test]
fn ihl_with_options_moves_tcp_header() {
    let c = consts(8);
    let mut f = build_frame(0x68, IP_LOGGER, IP_HARDWORKER, CLIENT_PORT, 9000, ACK, &[]);
    // insert one 4-byte option (NOPs) into the IPv4 header
    f[14] = 0x46;
    f.splice(34..34, [1u8, 1, 1, 1]);
    assert_eq!(classify_hardworker(&f, &c), Class::Hit);
    // with IHL honoured the destination port is read at 40, not at 36
    f[40..42].copy_from_slice(&9001u16.to_be_bytes());
    assert_eq!(classify_hardworker(&f, &c), Class::Miss);
}

#[test]
fn reflected_frame_is_not_selected_again() {
    let c = consts(64);
    let mut ring = Ring::new(64);
    let mut f = build_frame(0x68, IP_LOGGER, IP_HARDWORKER, CLIENT_PORT, 9000, PSH_ACK, &[5; 64]);
    assert_eq!(hardworker(&mut f, &c, &mut ring).action, XdpAction::Tx);
    assert_eq!(ring.len(), 1);
    let once = f.clone();
    assert_eq!(classify_hardworker(&f, &c), Class::Miss);
    let v = hardworker(&mut f, &c, &mut ring);
    assert_eq!(v, Verdict { action: XdpAction::Pass, snapshot: Snapshot::NotRequested });
    assert_eq!(f, once);
    assert_eq!(ring.len(), 1);
}

#[test]
fn marked_frame_for_another_host_is_reflected() {
    let c = consts(64);
    let mut ring = Ring::new(64);
    let mut f = build_frame(0x68, IP_LOGGER, IP_SENSOR, CLIENT_PORT, 9000, ACK, &[5; 64]);
    assert_eq!(classify_hardworker(&f, &c), Class::Hit);
    assert_eq!(hardworker(&mut f, &c, &mut ring).action, XdpAction::Tx);
    assert_eq!(&f[30..34], &[192, 168, 1, 93]);
}

#[test]
fn marked_frame_for_logger_passes_untouched() {
    let c = consts(64);
    let mut ring = Ring::new(64);
    let mut f = build_frame(0x68, IP_SENSOR, IP_LOGGER, CLIENT_PORT, 9000, PSH_ACK, &[5; 64]);
    let before = f.clone();
    assert_eq!(classify_hardworker(&f, &c), Class::Miss);
    let v = hardworker(&mut f, &c, &mut ring);
    assert_eq!(v, Verdict { action: XdpAction::Pass, snapshot: Snapshot::NotRequested });
    assert_eq!(f, before);
    assert_eq!(ring.len(), 0);
}

#[test]
fn tos_mismatch_passes_unchanged() {
    let c = consts(64);
    let mut ring = Ring::new(64);
    let mut f = build_frame(0x00, IP_LOGGER, IP_HARDWORKER, CLIENT_PORT, 9000, PSH_ACK, &[7; 64]);
    let before = f.clone();
    let v = hardworker(&mut f, &c, &mut ring);
    assert_eq!(v, Verdict { action: XdpAction::Pass, snapshot: Snapshot::NotRequested });
    assert_eq!(f, before);
    assert_eq!(ring.len(), 0);
}

#[test]
fn port_mismatch_passes_unchanged() {
    let c = consts(64);
    let mut ring = Ring::new(64);
    let mut f = build_frame(0x68, IP_LOGGER, IP_HARDWORKER, CLIENT_PORT, 9001, PSH_ACK, &[7; 64]);
    let before = f.clone();
    let v = hardworker(&mut f, &c, &mut ring);
    assert_eq!(v.action, XdpAction::Pass);
    assert_eq!(f, before);
    assert_eq!(classify_hardworker(&f, &c), Class::Miss);
}

#[test]
fn short_frame_aborts() {
    let c = consts(64);
    let mut ring = Ring::new(64);
    let full = build_frame(0x68, IP_LOGGER, IP_HARDWORKER, CLIENT_PORT, 9000, PSH_ACK, &[]);
    let mut f = full[..40].to_vec();
    let before = f.clone();
    let v = hardworker(&mut f, &c, &mut ring);
    assert_eq!(v, Verdict { action: XdpAction::Aborted, snapshot: Snapshot::NotRequested });
    assert_eq!(f, before);
    assert_eq!(ring.len(), 0);
}

#[test]
fn every_short_frame_aborts_in_every_role() {
    let c = consts(64);
    let full = build_frame(0x68, IP_LOGGER, IP_HARDWORKER, 9000, 9000, PSH_ACK, &[]);
    for len in 0..54 {
        let mut ring = Ring::new(64);
        let mut f = full[..len].to_vec();
        assert_eq!(hardworker(&mut f, &c, &mut ring).action, XdpAction::Aborted);
        assert_eq!(&f[..], &full[..len]);
        assert_eq!(sensor(&mut f, &c), XdpAction::Aborted);
        assert_eq!(&f[..], &full[..len]);
        assert_eq!(logger(&f, &c), XdpAction::Aborted);
        assert_eq!(classify_sensor(&f, &c), Class::Short);
    }
}

#[test]
fn ihl_below_five_is_not_aborted() {
    let c = consts(64);
    let mut ring = Ring::new(64);
    // IHL 4: the TCP header is read at 30, its destination port is the address's low half
    let mut f = build_frame(0x68, IP_LOGGER, IP_HARDWORKER, CLIENT_PORT, 9000, ACK, &[]);
    f[14] = 0x44;
    let before = f.clone();
    assert_eq!(hardworker(&mut f, &c, &mut ring).action, XdpAction::Pass);
    assert_eq!(f, before);
    assert_eq!(logger(&f, &c), XdpAction::Pass);
    assert_eq!(sensor(&mut f, &c), XdpAction::Pass);
    assert_eq!(f, before);
}

#[test]
fn ihl_zero_marked_frame_is_reflected() {
    let c = consts(64);
    let mut ring = Ring::new(64);
    let mut f = vec![0u8; 54];
    f[14] = 0x40;
    f[15] = 0x68;
    // with IHL 0 the TCP header starts at 14: its destination port is bytes 16..18
    f[16..18].copy_from_slice(&9000u16.to_be_bytes());
    f[30..34].copy_from_slice(&IP_HARDWORKER.to_be_bytes());
    assert_eq!(classify_hardworker(&f, &c), Class::Hit);
    let v = hardworker(&mut f, &c, &mut ring);
    assert_eq!(v, Verdict { action: XdpAction::Tx, snapshot: Snapshot::NotRequested });
    assert_eq!(&f[0..6], &MAC_LOGGER);
    assert_eq!(&f[6..12], &MAC_HARDWORKER);
    assert_eq!(&f[30..34], &[192, 168, 1, 93]);
}

#[test]
fn sensor_masquerades_return_leg() {
    let c = consts(64);
    let mut f = build_frame(0x00, IP_LOGGER, IP_LOGGER, 9000, CLIENT_PORT, PSH_ACK, &[9; 30]);
    assert_eq!(classify_sensor(&f, &c), Class::Hit);
    assert_eq!(sensor(&mut f, &c), XdpAction::Pass);
    assert_eq!(&f[26..30], &[192, 168, 1, 96]);
    assert_eq!(&f[6..12], &MAC_HARDWORKER);
    assert!(ip_checksum_valid(&f));
    assert!(tcp_checksum_valid(&f));
}

#[test]
fn sensor_ignores_other_sources() {
    let c = consts(64);
    let mut f = build_frame(0x68, IP_SENSOR, IP_LOGGER, 9000, CLIENT_PORT, ACK, &[]);
    let before = f.clone();
    assert_eq!(sensor(&mut f, &c), XdpAction::Pass);
    assert_eq!(f, before);
    let mut g = build_frame(0x68, IP_LOGGER, IP_LOGGER, 9001, CLIENT_PORT, ACK, &[]);
    let before = g.clone();
    assert_eq!(sensor(&mut g, &c), XdpAction::Pass);
    assert_eq!(g, before);
}

#[test]
fn logger_passes_marked_and_unmarked() {
    let c = consts(64);
    let marked = build_frame(0x68, IP_HARDWORKER, IP_LOGGER, 9000, CLIENT_PORT, ACK, &[]);
    let plain = build_frame(0x00, IP_HARDWORKER, IP_LOGGER, 9000, CLIENT_PORT, ACK, &[]);
    assert_eq!(classify_logger(&marked, &c), Class::Hit);
    assert_eq!(classify_logger(&plain, &c), Class::Miss);
    assert_eq!(logger(&marked, &c), XdpAction::Pass);
    assert_eq!(logger(&plain, &c), XdpAction::Pass);
}

#[test]
fn round_trip_over_the_triangle() {
    let size = 32;
    let c = consts(size);
    let mut ring = Ring::new(size);
    let payload: Vec<u8> = (0..size as u8).collect();
    let sent = build_frame(0x68, IP_LOGGER, IP_HARDWORKER, 9000, 9000, PSH_ACK, &payload);
    let mut f = sent.clone();
    assert_eq!(hardworker(&mut f, &c, &mut ring).action, XdpAction::Tx);
    assert_eq!(logger(&f, &c), XdpAction::Pass);
    assert_eq!(sensor(&mut f, &c), XdpAction::Pass);
    assert_eq!(&f[26..30], &[192, 168, 1, 96]);
    assert_eq!(&f[6..12], &MAC_HARDWORKER);
    assert_eq!(&f[54..], &sent[54..]);
    assert!(ip_checksum_valid(&f));
    assert!(tcp_checksum_valid(&f));
    assert_eq!(&f[24..26], &sent[24..26]);
    assert_eq!(&f[50..52], &sent[50..52]);
}
