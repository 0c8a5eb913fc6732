use vstd::prelude::*;

verus! {

/// The big-endian 16-bit word made of two bytes.
pub open spec fn be_word(hi: u8, lo: u8) -> nat {
    (hi as nat) * 256 + (lo as nat)
}

/// Sum of the big-endian 16-bit words `s[0..2]`, `s[2..4]`, ..., `s[i-2..i]`
/// (for an even `i`).
pub open spec fn pair_sum(s: Seq<u8>, i: int) -> nat
    decreases i,
{
    if i < 2 {
        0
    } else {
        pair_sum(s, i - 2) + be_word(s[i - 2], s[i - 1])
    }
}

/// Sum of all 16-bit words of `s`; a trailing odd byte is the high byte of a
/// last word whose low byte is zero.
pub open spec fn word_sum(s: Seq<u8>) -> nat {
    if s.len() % 2 == 0 {
        pair_sum(s, s.len() as int)
    } else {
        pair_sum(s, s.len() - 1) + be_word(s[s.len() - 1], 0)
    }
}

/// End-around carry: add the bits above the low 16 back into the low 16,
/// until the value fits in 16 bits.
pub open spec fn fold_carries(x: nat) -> nat
    decreases x,
{
    if x < 0x10000 {
        x
    } else {
        fold_carries(x % 0x10000 + x / 0x10000)
    }
}

/// The Internet checksum (RFC 1071) of the word sum `sum`: the one's
/// complement of its end-around-carry fold.
pub open spec fn checksum_of_sum(sum: nat) -> u16 {
    (0xffff - fold_carries(sum)) as u16
}

/// The Internet checksum of a byte sequence.
pub open spec fn internet_checksum(s: Seq<u8>) -> u16 {
    checksum_of_sum(word_sum(s))
}

/// `s` with the big-endian bytes of `v` written at `k` and `k + 1`.
pub open spec fn put_be16(s: Seq<u8>, k: int, v: u16) -> Seq<u8> {
    s.update(k, (v / 256) as u8).update(k + 1, (v % 256) as u8)
}

/// Folding the carries keeps the value modulo 0xffff, stays within 16 bits,
/// and gives zero only for zero.
pub proof fn lemma_fold_carries(x: nat)
    ensures
        fold_carries(x) <= 0xffff,
        fold_carries(x) % 0xffff == x % 0xffff,
        x > 0 ==> fold_carries(x) > 0,
    decreases x,
{
    if x >= 0x10000 {
        let q = x / 0x10000;
        let r = x % 0x10000;
        assert(x == 0x10000 * q + r);
        assert((0xffff * q + (q + r)) % 0xffff == (q + r) % 0xffff) by {
            vstd::arithmetic::div_mod::lemma_mod_multiples_vanish(q as int, (q + r) as int, 0xffff);
        }
        assert(x == 0xffff * q + (q + r));
        lemma_fold_carries(r + q);
    }
}

/// Word sums only grow along the sequence.
pub proof fn lemma_pair_sum_monotone(s: Seq<u8>, i: int, j: int)
    requires
        i <= j,
        i % 2 == j % 2,
    ensures
        pair_sum(s, i) <= pair_sum(s, j),
    decreases j - i,
{
    if i < j {
        lemma_pair_sum_monotone(s, i, j - 2);
    }
}

/// Every prefix sum of whole words is bounded by the sum of all words.
pub proof fn lemma_pair_sum_le_word_sum(s: Seq<u8>, i: int)
    requires
        0 <= i <= s.len(),
        i % 2 == 0,
    ensures
        pair_sum(s, i) <= word_sum(s),
{
    if s.len() % 2 == 0 {
        lemma_pair_sum_monotone(s, i, s.len() as int);
    } else {
        lemma_pair_sum_monotone(s, i, s.len() - 1);
    }
}

/// Writing a 16-bit value at an even offset into two zero bytes adds that
/// value to every prefix sum that covers the offset.
proof fn lemma_pair_sum_put(s: Seq<u8>, k: int, v: u16, i: int)
    requires
        0 <= k,
        k + 1 < s.len(),
        k % 2 == 0,
        i % 2 == 0,
        i <= s.len(),
        s[k] == 0,
        s[k + 1] == 0,
    ensures
        pair_sum(put_be16(s, k, v), i) == pair_sum(s, i) + (if i > k { v as nat } else { 0 }),
    decreases i,
{
    let t = put_be16(s, k, v);
    if i >= 2 {
        lemma_pair_sum_put(s, k, v, i - 2);
        if i - 2 == k {
            assert(be_word(t[k], t[k + 1]) == v as nat) by {
                assert(t[k] == (v / 256) as u8);
                assert(t[k + 1] == (v % 256) as u8);
            }
        } else {
            assert(t[i - 2] == s[i - 2]);
            assert(t[i - 1] == s[i - 1]);
        }
    }
}

/// Writing a 16-bit value at an even offset into two zero bytes adds that
/// value to the word sum.
pub proof fn lemma_word_sum_put(s: Seq<u8>, k: int, v: u16)
    requires
        0 <= k,
        k + 1 < s.len(),
        k % 2 == 0,
        s[k] == 0,
        s[k + 1] == 0,
    ensures
        word_sum(put_be16(s, k, v)) == word_sum(s) + v,
{
    let t = put_be16(s, k, v);
    if s.len() % 2 == 0 {
        lemma_pair_sum_put(s, k, v, s.len() as int);
    } else {
        lemma_pair_sum_put(s, k, v, s.len() - 1);
        assert(t[s.len() - 1] == s[s.len() - 1]);
    }
}

/// A word sum whose fold plus `c` is a multiple of 0xffff, and that is not
/// zero once `c` is added, has checksum zero after `c` is added.
pub proof fn lemma_checksum_of_completed_sum(sum: nat, c: nat)
    requires
        (fold_carries(sum) + c) % 0xffff == 0,
        sum + c > 0,
    ensures
        checksum_of_sum(sum + c) == 0,
{
    lemma_fold_carries(sum);
    lemma_fold_carries(sum + c);
    let f = fold_carries(sum);
    let g = fold_carries(sum + c);
    assert(((sum + c) as int) % 0xffff == (f + c) % 0xffff) by {
        vstd::arithmetic::div_mod::lemma_add_mod_noop(sum as int, c as int, 0xffff);
        vstd::arithmetic::div_mod::lemma_add_mod_noop(f as int, c as int, 0xffff);
    }
    assert(g % 0xffff == 0);
    assert(g == 0xffff);
}

/// Checksum law: writing the checksum of a sequence into a zeroed 16-bit
/// field at an even offset gives a sequence whose checksum is zero, which
/// is how a receiver accepts it.
pub proof fn lemma_checksum_verifies(s: Seq<u8>, k: int)
    requires
        0 <= k,
        k + 1 < s.len(),
        k % 2 == 0,
        s[k] == 0,
        s[k + 1] == 0,
    ensures
        internet_checksum(put_be16(s, k, internet_checksum(s))) == 0,
{
    let c = internet_checksum(s);
    lemma_fold_carries(word_sum(s));
    lemma_word_sum_put(s, k, c);
    assert(c as nat == 0xffff - fold_carries(word_sum(s)));
    lemma_checksum_of_completed_sum(word_sum(s), c as nat);
}

/// The same holds when a checksum that came out as zero is sent as 0xffff
/// instead (its other one's-complement form), as UDP does.
pub proof fn lemma_checksum_verifies_nonzero_form(s: Seq<u8>, k: int)
    requires
        0 <= k,
        k + 1 < s.len(),
        k % 2 == 0,
        s[k] == 0,
        s[k + 1] == 0,
    ensures
        internet_checksum(
            put_be16(s, k, if internet_checksum(s) == 0 { 0xffffu16 } else { internet_checksum(s) }),
        ) == 0,
{
    let c = internet_checksum(s);
    if c == 0 {
        lemma_fold_carries(word_sum(s));
        lemma_word_sum_put(s, k, 0xffffu16);
        assert(fold_carries(word_sum(s)) == 0xffff);
        lemma_checksum_of_completed_sum(word_sum(s), 0xffff);
    } else {
        lemma_checksum_verifies(s, k);
    }
}

/// The two big-endian bytes of a 16-bit value.
pub open spec fn be16(v: u16) -> Seq<u8> {
    seq![(v / 256) as u8, (v % 256) as u8]
}

/// The 32-bit value of four big-endian bytes.
pub open spec fn be_u32(b0: u8, b1: u8, b2: u8, b3: u8) -> nat {
    (b0 as nat) * 0x1000000 + (b1 as nat) * 0x10000 + (b2 as nat) * 0x100 + (b3 as nat)
}

/// Reads the big-endian 16-bit value at `s[i..i + 2]`.
pub fn read_be16(s: &[u8], i: usize) -> (v: u16)
    requires
        i + 2 <= s@.len(),
    ensures
        v == be_word(s@[i as int], s@[i + 1]),
{
    let hi = s[i];
    let lo = s[i + 1];
    let v = ((hi as u16) << 8) | (lo as u16);
    assert(v == hi * 256 + lo) by (bit_vector)
        requires
            v == ((hi as u16) << 8) | (lo as u16),
    ;
    v
}

/// Reads the big-endian 32-bit value at `s[i..i + 4]`.
pub fn read_be32(s: &[u8], i: usize) -> (v: u32)
    requires
        i + 4 <= s@.len(),
    ensures
        v == be_u32(s@[i as int], s@[i + 1], s@[i + 2], s@[i + 3]),
{
    let b0 = s[i];
    let b1 = s[i + 1];
    let b2 = s[i + 2];
    let b3 = s[i + 3];
    let v = ((b0 as u32) << 24) | ((b1 as u32) << 16) | ((b2 as u32) << 8) | (b3 as u32);
    assert(v == b0 * 0x1000000 + b1 * 0x10000 + b2 * 0x100 + b3) by (bit_vector)
        requires
            v == ((b0 as u32) << 24) | ((b1 as u32) << 16) | ((b2 as u32) << 8) | (b3 as u32),
    ;
    v
}

/// Appends the two big-endian bytes of `x`.
pub fn push_be16(v: &mut Vec<u8>, x: u16)
    ensures
        final(v)@ == old(v)@ + be16(x),
{
    let hi = (x >> 8) as u8;
    let lo = (x & 0xff) as u8;
    assert(hi == x / 256 && lo == x % 256) by (bit_vector)
        requires
            hi == (x >> 8) as u8,
            lo == (x & 0xff) as u8,
    ;
    v.push(hi);
    v.push(lo);
    assert(final(v)@ =~= old(v)@ + be16(x));
}

/// Writes the two big-endian bytes of `x` at `k` and `k + 1`.
pub fn set_be16(v: &mut Vec<u8>, k: usize, x: u16)
    requires
        k + 2 <= old(v).len(),
    ensures
        final(v)@ == put_be16(old(v)@, k as int, x),
{
    let hi = (x >> 8) as u8;
    let lo = (x & 0xff) as u8;
    assert(hi == x / 256 && lo == x % 256) by (bit_vector)
        requires
            hi == (x >> 8) as u8,
            lo == (x & 0xff) as u8,
    ;
    v.set(k, hi);
    v.set(k + 1, lo);
}

/// The two bytes of `be16(v)` read back as a big-endian word give `v`.
pub proof fn lemma_be16_word(v: u16)
    ensures
        be16(v).len() == 2,
        be_word(be16(v)[0], be16(v)[1]) == v,
{
}

/// Each word is at most 0xffff, so the words of the first `i` bytes sum to
/// at most 0xffff per pair.
pub proof fn lemma_pair_sum_bound(s: Seq<u8>, i: int)
    ensures
        pair_sum(s, i) * 2 <= 0xffff * (if i < 0 { 0 } else { i }),
    decreases i,
{
    if i >= 2 {
        lemma_pair_sum_bound(s, i - 2);
    }
}

/// The word sum of `s` is at most 0xffff for every started pair of bytes;
/// in particular it fits in 32 bits for any sequence shorter than 131070
/// bytes.
pub proof fn lemma_word_sum_bound(s: Seq<u8>)
    ensures
        word_sum(s) * 2 <= 0xffff * (s.len() + 1),
{
    if s.len() % 2 == 0 {
        lemma_pair_sum_bound(s, s.len() as int);
    } else {
        lemma_pair_sum_bound(s, s.len() - 1);
    }
}

/// Whether the word sum of `data` fits in 32 bits, which `calc_checksum`
/// needs of its input.
pub fn word_sum_fits_u32(data: &[u8]) -> (fits: bool)
    ensures
        fits == (word_sum(data@) <= u32::MAX),
{
    let mut sum: u64 = 0;
    let mut i: usize = 0;
    while i + 1 < data.len()
        invariant
            i <= data@.len(),
            i % 2 == 0,
            sum == pair_sum(data@, i as int),
            sum <= u32::MAX,
        decreases data@.len() - i,
    {
        let word = read_be16(data, i);
        proof {
            lemma_pair_sum_le_word_sum(data@, i + 2);
        }
        sum = sum + word as u64;
        i = i + 2;
        if sum > 0xffff_ffff {
            return false;
        }
    }
    if i < data.len() {
        sum = sum + (data[i] as u64) * 256;
    }
    sum <= 0xffff_ffff
}

/// Law: the word sum, built up byte by byte. The empty sequence sums to
/// zero; two bytes appended at an even length add the big-endian word
/// `a * 256 + b`; one byte appended at an even length adds `a * 256`, as a
/// word whose low byte is zero.
pub proof fn lemma_word_sum_steps(s: Seq<u8>, a: u8, b: u8)
    ensures
        word_sum(Seq::<u8>::empty()) == 0,
        s.len() % 2 == 0 ==> word_sum(s + seq![a, b]) == word_sum(s) + a * 256 + b,
        s.len() % 2 == 0 ==> word_sum(s.push(a)) == word_sum(s) + a * 256,
{
    if s.len() % 2 == 0 {
        let t = s + seq![a, b];
        lemma_pair_sum_extend(s, seq![a, b], s.len() as int);
        assert(t[s.len() as int] == a);
        assert(t[s.len() + 1int] == b);
        let u = s.push(a);
        assert(u =~= s + seq![a]);
        lemma_pair_sum_extend(s, seq![a], s.len() as int);
    }
}

/// Law: the checksum in terms of the word sum. It is the 16-bit value that,
/// added to the word sum, gives a multiple of 0xffff (one's-complement
/// negation); of the two such values 0 and 0xffff for a multiple of 0xffff,
/// it is 0xffff exactly when the word sum is zero.
pub proof fn lemma_checksum_negates_sum(s: Seq<u8>)
    ensures
        (internet_checksum(s) + word_sum(s)) % 0xffff == 0,
        internet_checksum(s) == 0xffff <==> word_sum(s) == 0,
{
    let w = word_sum(s);
    lemma_fold_carries(w);
    let f = fold_carries(w);
    assert(internet_checksum(s) == 0xffff - f);
    assert(((0xffff - f) + w) % 0xffff == 0) by {
        vstd::arithmetic::div_mod::lemma_add_mod_noop((0xffff - f) as int, w as int, 0xffff);
        vstd::arithmetic::div_mod::lemma_add_mod_noop((0xffff - f) as int, f as int, 0xffff);
    }
    if w > 0 {
        assert(f > 0);
    }
}

/// Law: the big-endian readings of bytes.
pub proof fn lemma_be_values(b0: u8, b1: u8, b2: u8, b3: u8)
    ensures
        be_word(b0, b1) == b0 * 256 + b1,
        be_word(b0, b1) <= 0xffff,
        be_u32(b0, b1, b2, b3) == b0 * 0x1000000 + b1 * 0x10000 + b2 * 0x100 + b3,
        be_u32(b0, b1, b2, b3) == be_word(b0, b1) * 0x10000 + be_word(b2, b3),
{
}

/// Any sequence of at most 131074 bytes has a word sum that fits in 32 bits.
pub proof fn lemma_word_sum_fits_u32(s: Seq<u8>)
    requires
        s.len() <= 131074,
    ensures
        word_sum(s) <= u32::MAX,
{
    if s.len() % 2 == 0 {
        lemma_pair_sum_bound(s, s.len() as int);
    } else {
        lemma_pair_sum_bound(s, s.len() - 1);
    }
}

/// The big-endian 16-bit words of a sequence, pair by pair (a trailing odd
/// byte is left out).
pub open spec fn words(s: Seq<u8>) -> Seq<nat> {
    Seq::new((s.len() / 2) as nat, |i: int| be_word(s[2 * i], s[2 * i + 1]))
}

/// The sum of a sequence of numbers.
pub open spec fn seq_sum(ws: Seq<nat>) -> nat
    decreases ws.len(),
{
    if ws.len() == 0 {
        0
    } else {
        seq_sum(ws.drop_last()) + ws.last()
    }
}

proof fn lemma_pair_sum_words(s: Seq<u8>, k: int)
    requires
        0 <= k <= s.len() / 2,
    ensures
        pair_sum(s, 2 * k) == seq_sum(words(s).take(k)),
    decreases k,
{
    if k > 0 {
        lemma_pair_sum_words(s, k - 1);
        assert(words(s).take(k).drop_last() =~= words(s).take(k - 1));
    }
}

/// The word sum of an even-length sequence is the sum of its words.
pub proof fn lemma_word_sum_is_sum_of_words(s: Seq<u8>)
    requires
        s.len() % 2 == 0,
    ensures
        word_sum(s) == seq_sum(words(s)),
{
    lemma_pair_sum_words(s, (s.len() / 2) as int);
    assert(words(s).take((s.len() / 2) as int) =~= words(s));
}

proof fn lemma_seq_sum_remove(ws: Seq<nat>, j: int)
    requires
        0 <= j < ws.len(),
    ensures
        seq_sum(ws) == seq_sum(ws.remove(j)) + ws[j],
    decreases ws.len(),
{
    if j < ws.len() - 1 {
        lemma_seq_sum_remove(ws.drop_last(), j);
        assert(ws.remove(j).drop_last() =~= ws.drop_last().remove(j));
        assert(ws.remove(j).last() == ws.last());
    } else {
        assert(ws.remove(j) =~= ws.drop_last());
    }
}

/// Sums do not depend on the order of the summands.
pub proof fn lemma_seq_sum_permutation(a: Seq<nat>, b: Seq<nat>)
    requires
        a.to_multiset() == b.to_multiset(),
    ensures
        seq_sum(a) == seq_sum(b),
    decreases a.len(),
{
    broadcast use vstd::seq_lib::group_to_multiset_ensures;
    broadcast use vstd::multiset::group_multiset_axioms;

    if a.len() == 0 {
        vstd::seq_lib::to_multiset_len(a);
        vstd::seq_lib::to_multiset_len(b);
    } else {
        let x = a.last();
        let rest = a.drop_last();
        assert(rest.push(x) =~= a);
        vstd::seq_lib::to_multiset_build(rest, x);
        assert(b.to_multiset().count(x) > 0);
        vstd::seq_lib::to_multiset_contains(b, x);
        let j = choose|j: int| 0 <= j < b.len() && b[j] == x;
        vstd::seq_lib::to_multiset_remove(b, j);
        assert(b.remove(j).to_multiset() =~= rest.to_multiset());
        lemma_seq_sum_permutation(rest, b.remove(j));
        lemma_seq_sum_remove(b, j);
    }
}

/// Checksum law: the checksum of an even-length sequence does not depend on
/// the order of its 16-bit words.
pub proof fn lemma_checksum_word_permutation(s: Seq<u8>, t: Seq<u8>)
    requires
        s.len() % 2 == 0,
        t.len() % 2 == 0,
        words(s).to_multiset() == words(t).to_multiset(),
    ensures
        internet_checksum(s) == internet_checksum(t),
{
    lemma_word_sum_is_sum_of_words(s);
    lemma_word_sum_is_sum_of_words(t);
    lemma_seq_sum_permutation(words(s), words(t));
}

proof fn lemma_pair_sum_extend(s: Seq<u8>, t: Seq<u8>, i: int)
    requires
        i <= s.len(),
    ensures
        pair_sum(s + t, i) == pair_sum(s, i),
    decreases i,
{
    if i >= 2 {
        lemma_pair_sum_extend(s, t, i - 2);
        assert((s + t)[i - 2] == s[i - 2]);
        assert((s + t)[i - 1] == s[i - 1]);
    }
}

/// One trailing zero byte adds nothing to the word sum.
pub proof fn lemma_word_sum_push_zero(s: Seq<u8>)
    ensures
        word_sum(s.push(0u8)) == word_sum(s),
{
    let t = s.push(0u8);
    assert(t =~= s + seq![0u8]);
    if s.len() % 2 == 0 {
        lemma_pair_sum_extend(s, seq![0u8], s.len() as int);
    } else {
        lemma_pair_sum_extend(s, seq![0u8], s.len() - 1);
        assert(t[s.len() - 1] == s[s.len() - 1]);
        assert(t[s.len() as int] == 0);
    }
}

/// Checksum law: appending zero bytes leaves the checksum unchanged.
pub proof fn lemma_checksum_zero_padding(s: Seq<u8>, n: nat)
    ensures
        internet_checksum(s + Seq::new(n, |i: int| 0u8)) == internet_checksum(s),
    decreases n,
{
    if n > 0 {
        let m = (n - 1) as nat;
        lemma_checksum_zero_padding(s, m);
        lemma_word_sum_push_zero(s + Seq::new(m, |i: int| 0u8));
        assert((s + Seq::new(m, |i: int| 0u8)).push(0u8) =~= s + Seq::new(n, |i: int| 0u8));
    }
}

} // verus!
