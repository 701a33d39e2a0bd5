use xdp_relay::checksum::{ipv4_checksum, update_checksum};

fn sum_words(words: &[u16; 10]) -> u32 {
    words.iter().map(|w| *w as u32).sum()
}

fn folded(words: &[u16; 10]) -> u16 {
    let s = sum_words(words);
    let s = (s >> 16) + (s & 0xFFFF);
    (s + (s >> 16)) as u16
}

#[test]
fn header_checksum_of_sample_header() {
    let words: [u16; 10] = [
        0x4568, 0x003c, 0xf0be, 0x4000, 0x4006, 0x0000, 0xc0a8, 0x0160, 0xc0a8, 0x015d,
    ];
    assert_eq!(ipv4_checksum(&words), 0xc587);
}

#[test]
fn header_checksum_validates_itself() {
    let mut words: [u16; 10] = [
        0x4568, 0x003c, 0xf0be, 0x4000, 0x4006, 0x0000, 0xc0a8, 0x0160, 0xc0a8, 0x015d,
    ];
    words[5] = ipv4_checksum(&words);
    assert_eq!(folded(&words), 0xFFFF);
    assert_eq!(ipv4_checksum(&words), 0x0000);
}

#[test]
fn update_matches_recompute_on_sample_header() {
    let mut words: [u16; 10] = [
        0x4568, 0x003c, 0xf0be, 0x4000, 0x4006, 0x0000, 0xc0a8, 0x0160, 0xc0a8, 0x015d,
    ];
    let old_sum = ipv4_checksum(&words);
    let old_ip = ((words[6] as u32) << 16) | words[7] as u32;
    let new_ip: u32 = u32::from_be_bytes([192, 168, 1, 79]);
    words[6] = (new_ip >> 16) as u16;
    words[7] = new_ip as u16;
    let updated = update_checksum(old_sum, old_ip as u16, new_ip as u16);
    assert_eq!(updated, 0xc598);
    assert_eq!(updated, ipv4_checksum(&words));
}

#[test]
fn update_with_equal_words_keeps_checksum() {
    for csum in [0x0000u16, 0x0001, 0x1234, 0xc587, 0xfffe, 0xffff] {
        for word in [0x0000u16, 0x015d, 0x8000, 0xffff] {
            assert_eq!(update_checksum(csum, word, word), csum);
        }
    }
}

#[test]
fn update_exact_values() {
    // running sum 0x3a78, minus 0x0160, plus 0x014f
    assert_eq!(update_checksum(0xc587, 0x0160, 0x014f), 0xc598);
    // words 0x000a, 0xfffa, 0...: checksum 0xfffa; word 0 becomes 0x0002
    assert_eq!(ipv4_checksum(&[0x000a, 0xfffa, 0, 0, 0, 0, 0, 0, 0, 0]), 0xfffa);
    assert_eq!(update_checksum(0xfffa, 0x000a, 0x0002), 0x0003);
    assert_eq!(ipv4_checksum(&[0x0002, 0xfffa, 0, 0, 0, 0, 0, 0, 0, 0]), 0x0003);
    // and back again
    assert_eq!(update_checksum(0x0003, 0x0002, 0x000a), 0xfffa);
}

#[test]
fn update_to_all_zero_header_gives_other_zero() {
    let words: [u16; 10] = [5, 0, 0, 0, 0, 0, 0, 0, 0, 0];
    assert_eq!(ipv4_checksum(&words), 0xfffa);
    assert_eq!(ipv4_checksum(&[0; 10]), 0xffff);
    assert_eq!(update_checksum(0xfffa, 5, 0), 0x0000);
}

fn lcg(state: &mut u64) -> u32 {
    *state = state.wrapping_mul(6364136223846793005).wrapping_add(1442695040888963407);
    (*state >> 33) as u32
}

#[test]
fn update_matches_recompute_randomised() {
    let mut state: u64 = 0x9E37_79B9_7F4A_7C15;
    for _ in 0..1_000_000 {
        let mut words = [0u16; 10];
        for w in words.iter_mut() {
            *w = lcg(&mut state) as u16;
        }
        let i = (lcg(&mut state) % 10) as usize;
        let new = lcg(&mut state) as u16;
        let mut changed = words;
        changed[i] = new;
        // an all-zero header has the other one's-complement zero as its checksum
        if sum_words(&changed) == 0 {
            continue;
        }
        let csum = ipv4_checksum(&words);
        assert_eq!(update_checksum(csum, words[i], new), ipv4_checksum(&changed));
    }
}

#[test]
fn update_undo_and_two_updates_randomised() {
    let mut state: u64 = 0x0123_4567_89AB_CDEF;
    for _ in 0..100_000 {
        let mut words = [0u16; 10];
        for w in words.iter_mut() {
            *w = lcg(&mut state) as u16;
        }
        let i = (lcg(&mut state) % 10) as usize;
        let j = (i + 1 + (lcg(&mut state) % 9) as usize) % 10;
        let (a, b) = (lcg(&mut state) as u16, lcg(&mut state) as u16);
        let csum = ipv4_checksum(&words);
        let once = update_checksum(csum, words[i], a);
        if csum != 0xffff {
            assert_eq!(update_checksum(once, a, words[i]), csum);
        }
        let mut both = words;
        both[i] = a;
        both[j] = b;
        let expected = ipv4_checksum(&both);
        assert_eq!(update_checksum(once, words[j], b), expected);
        assert_eq!(update_checksum(update_checksum(csum, words[j], b), words[i], a), expected);
    }
}
