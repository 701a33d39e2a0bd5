//! One's-complement Internet checksums and their incremental update (RFC 1624).
//!
//! All values here are in host order: callers swap from wire order before and after.
use vstd::prelude::*;

verus! {

/// Folds the upper half of a 32-bit accumulator into the lower half twice and keeps
/// the low 16 bits: the one's-complement sum that the accumulator stands for.
pub open spec fn fold16(x: int) -> int {
    let a = x / 0x10000 + x % 0x10000;
    (a + a / 0x10000) % 0x10000
}

/// The checksum that results from replacing the 16-bit word `old` by `new` in a datagram
/// whose checksum was `old_csum` (RFC 1624, equation 3): the complement of the old
/// checksum recovers the running sum, `old` is taken away by adding its one's complement,
/// `new` is added, and the sum is folded and complemented.
/// A word that does not change leaves the checksum as it is.
pub open spec fn checksum_update(old_csum: int, old: int, new: int) -> int {
    if old == new {
        old_csum
    } else {
        0xFFFF - fold16((0xFFFF - old_csum) + (0xFFFF - old) + new)
    }
}

/// The sum of a sequence of 16-bit words, as an unbounded integer.
pub open spec fn word_sum(words: Seq<u16>) -> int
    decreases words.len(),
{
    if words.len() == 0 {
        0
    } else {
        word_sum(words.drop_last()) + words.last()
    }
}

/// The one's-complement sum of a header's words.
pub open spec fn ones_sum(words: Seq<u16>) -> int {
    fold16(word_sum(words))
}

/// The checksum of a header's words: the complement of their one's-complement sum.
pub open spec fn header_checksum(words: Seq<u16>) -> int {
    0xFFFF - ones_sum(words)
}

/// Computes the checksum after the 16-bit field `old` of a datagram became `new`,
/// from the datagram's checksum `old_csum`, without summing the datagram again.
pub fn update_checksum(old_csum: u16, old: u16, new: u16) -> (r: u16)
    ensures
        r == checksum_update(old_csum as int, old as int, new as int),
        old == new ==> r == old_csum,
{
    if old == new {
        return old_csum;
    }
    let sum: u32 = (!old_csum) as u32;
    assert(sum == 0xFFFF - old_csum) by (bit_vector)
        requires
            sum == (!old_csum) as u32,
    ;
    let taken: u32 = (!old) as u32;
    assert(taken == 0xFFFF - old) by (bit_vector)
        requires
            taken == (!old) as u32,
    ;
    // Subtracting `old` is adding its one's complement, which never borrows.
    let acc: u32 = sum + taken + new as u32;
    let hi: u32 = acc >> 16;
    let lo: u32 = acc & 0xFFFF;
    assert(hi == acc / 0x10000 && lo == acc % 0x10000) by (bit_vector)
        requires
            hi == acc >> 16,
            lo == acc & 0xFFFF,
    ;
    let once: u32 = hi + lo;
    let carry: u32 = once >> 16;
    assert(carry == once / 0x10000) by (bit_vector)
        requires
            carry == once >> 16,
    ;
    let twice: u32 = once + carry;
    let r: u16 = !(twice as u16);
    assert(r == 0xFFFF - twice % 0x10000) by (bit_vector)
        requires
            r == !(twice as u16),
    ;
    r
}

/// Computes the checksum of a 20-byte IPv4 header given as ten host-order words.
pub fn ipv4_checksum(ipv4hdr: &[u16; 10]) -> (r: u16)
    ensures
        r == header_checksum(ipv4hdr@),
{
    let mut sum: u32 = 0;
    let mut i: usize = 0;
    while i < 10
        invariant
            i <= 10,
            ipv4hdr@.len() == 10,
            sum == word_sum(ipv4hdr@.subrange(0, i as int)),
            sum <= 0xFFFF * i,
        decreases 10 - i,
    {
        assert(ipv4hdr@.subrange(0, i + 1).drop_last() =~= ipv4hdr@.subrange(0, i as int));
        sum = sum + ipv4hdr[i] as u32;
        i = i + 1;
    }
    assert(ipv4hdr@.subrange(0, 10) =~= ipv4hdr@);
    let hi: u32 = sum >> 16;
    let lo: u32 = sum & 0xFFFF;
    assert(hi == sum / 0x10000 && lo == sum % 0x10000) by (bit_vector)
        requires
            hi == sum >> 16,
            lo == sum & 0xFFFF,
    ;
    let once: u32 = hi + lo;
    let carry: u32 = once >> 16;
    assert(carry == once / 0x10000) by (bit_vector)
        requires
            carry == once >> 16,
    ;
    let twice: u32 = once + carry;
    let r: u16 = !((twice & 0xFFFF) as u16);
    assert(r == 0xFFFF - twice % 0x10000) by (bit_vector)
        requires
            r == !((twice & 0xFFFF) as u16),
    ;
    r
}

/// Replacing word `i` of `words` by `v` moves their sum by `v - words[i]`.
pub proof fn lemma_word_sum_update(words: Seq<u16>, i: int, v: u16)
    requires
        0 <= i < words.len(),
    ensures
        word_sum(words.update(i, v)) == word_sum(words) - words[i] + v,
    decreases words.len(),
{
    let updated = words.update(i, v);
    if i == words.len() - 1 {
        assert(updated.drop_last() =~= words.drop_last());
    } else {
        assert(updated.drop_last() =~= words.drop_last().update(i, v));
        lemma_word_sum_update(words.drop_last(), i, v);
    }
}

/// A sum of words is at least each of its words and at most `0xFFFF` per word.
pub proof fn lemma_word_sum_bounds(words: Seq<u16>)
    ensures
        0 <= word_sum(words) <= 0xFFFF * words.len(),
        forall|i: int| 0 <= i < words.len() ==> words[i] <= #[trigger] word_sum(words),
    decreases words.len(),
{
    if words.len() > 0 {
        lemma_word_sum_bounds(words.drop_last());
        assert forall|i: int| 0 <= i < words.len() implies words[i] <= #[trigger] word_sum(
            words,
        ) by {
            if i < words.len() - 1 {
                assert(words.drop_last()[i] == words[i]);
            }
        }
    }
}

/// Folding a sum below 2^20 keeps it modulo 0xFFFF, keeps it below 0x10000, and gives
/// zero only for zero. Returns how many times 0xFFFF the fold took away.
pub proof fn lemma_fold16(x: int) -> (k: int)
    requires
        0 <= x < 0x100000,
    ensures
        fold16(x) == x - 0xFFFF * k,
        0 <= fold16(x) <= 0xFFFF,
        fold16(x) == 0 <==> x == 0,
{
    let q = x / 0x10000;
    let r = x % 0x10000;
    vstd::arithmetic::div_mod::lemma_fundamental_div_mod(x, 0x10000);
    assert(0 <= r < 0x10000);
    assert(0 <= q < 16);
    let a = q + r;
    if a < 0x10000 {
        assert(a / 0x10000 == 0);
        assert((a + 0) % 0x10000 == a);
        q
    } else {
        assert(a / 0x10000 == 1);
        assert((a + 1) % 0x10000 == a + 1 - 0x10000);
        q + 1
    }
}

/// Two values in 1..=0xFFFF that differ by a multiple of 0xFFFF are equal.
proof fn lemma_same_residue(a: int, b: int, j: int)
    requires
        1 <= a <= 0xFFFF,
        1 <= b <= 0xFFFF,
        a - b == 0xFFFF * j,
    ensures
        a == b,
{
    assert(j == 0) by (nonlinear_arith)
        requires
            -0xFFFF < 0xFFFF * j < 0xFFFF,
    ;
}

/// Updating a 20-byte IPv4 header's checksum incrementally for a change of word `i` to
/// `new` gives the checksum of the changed header, recomputed in full. The one exception
/// is a changed header whose words are all zero: its recomputed checksum is 0xFFFF, the
/// update gives the other one's-complement zero, 0x0000.
pub proof fn lemma_update_matches_recompute(words: Seq<u16>, i: int, new: u16)
    requires
        words.len() == 10,
        0 <= i < 10,
        word_sum(words.update(i, new)) != 0,
    ensures
        checksum_update(header_checksum(words), words[i] as int, new as int) == header_checksum(
            words.update(i, new),
        ),
{
    let s = word_sum(words);
    let m = words[i] as int;
    let changed = words.update(i, new);
    if new == m {
        assert(changed =~= words);
        return;
    }
    lemma_word_sum_bounds(words);
    lemma_word_sum_bounds(changed);
    lemma_word_sum_update(words, i, new);
    let s2 = word_sum(changed);
    assert(s2 == s - m + new);
    let kf = lemma_fold16(s);
    let f = fold16(s);
    assert(m <= s);
    let v = f + (0xFFFF - m) + new;
    assert(0 < v < 0x30000) by {
        if f == 0 {
            assert(s == 0);
        }
    }
    assert((0xFFFF - header_checksum(words)) + (0xFFFF - m) + new == v);
    let kv = lemma_fold16(v);
    let ks = lemma_fold16(s2);
    assert(v == s2 - 0xFFFF * (kf - 1));
    assert(fold16(v) - fold16(s2) == 0xFFFF * (ks - kf + 1 - kv)) by (nonlinear_arith)
        requires
            fold16(v) == v - 0xFFFF * kv,
            fold16(s2) == s2 - 0xFFFF * ks,
            v == s2 - 0xFFFF * (kf - 1),
    ;
    lemma_same_residue(fold16(v), fold16(s2), ks - kf + 1 - kv);
}

/// Putting a word back restores the checksum: updating for `old -> new` and then for
/// `new -> old` gives the header's checksum again, unless one of the two headers sums
/// to zero.
pub proof fn lemma_update_undo(words: Seq<u16>, i: int, new: u16)
    requires
        words.len() == 10,
        0 <= i < 10,
        word_sum(words) != 0,
        word_sum(words.update(i, new)) != 0,
    ensures
        checksum_update(
            checksum_update(header_checksum(words), words[i] as int, new as int),
            new as int,
            words[i] as int,
        ) == header_checksum(words),
{
    let changed = words.update(i, new);
    lemma_update_matches_recompute(words, i, new);
    assert(changed.update(i, words[i]) =~= words);
    lemma_update_matches_recompute(changed, i, words[i]);
}

/// Two incremental updates of different words, in either order, give the checksum of
/// the header with both words changed, unless a header along the way sums to zero.
pub proof fn lemma_two_updates(words: Seq<u16>, i: int, a: u16, j: int, b: u16)
    requires
        words.len() == 10,
        0 <= i < 10,
        0 <= j < 10,
        i != j,
        word_sum(words.update(i, a)) != 0,
        word_sum(words.update(j, b)) != 0,
        word_sum(words.update(i, a).update(j, b)) != 0,
    ensures
        checksum_update(
            checksum_update(header_checksum(words), words[i] as int, a as int),
            words[j] as int,
            b as int,
        ) == header_checksum(words.update(i, a).update(j, b)),
        checksum_update(
            checksum_update(header_checksum(words), words[j] as int, b as int),
            words[i] as int,
            a as int,
        ) == header_checksum(words.update(i, a).update(j, b)),
{
    let wi = words.update(i, a);
    let wj = words.update(j, b);
    lemma_update_matches_recompute(words, i, a);
    lemma_update_matches_recompute(wi, j, b);
    assert(wi[j] == words[j]);
    lemma_update_matches_recompute(words, j, b);
    assert(wj[i] == words[i]);
    assert(wj.update(i, a) =~= wi.update(j, b));
    lemma_update_matches_recompute(wj, i, a);
}

} // verus!
