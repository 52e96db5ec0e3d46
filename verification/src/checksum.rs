//! The Internet checksum (RFC 1071) over little-endian 16-bit words.

use vstd::prelude::*;
use vstd::arithmetic::div_mod::{lemma_fundamental_div_mod, lemma_mod_multiples_vanish, lemma_sub_mod_noop};

verus! {

/// Sum of the little-endian 16-bit words of `d`; a trailing odd byte counts as a word
/// whose high byte is zero.
pub open spec fn word_sum(d: Seq<u8>) -> nat
    decreases d.len(),
{
    if d.len() == 0 {
        0
    } else if d.len() == 1 {
        d[0] as nat
    } else {
        (d[0] + 256 * d[1] + word_sum(d.skip(2))) as nat
    }
}

/// Folds the carries above bit 15 back into the low 16 bits until none are left.
pub open spec fn fold_carries(s: nat) -> nat
    decreases s,
{
    if s > 0xFFFF {
        fold_carries(s % 0x10000 + s / 0x10000)
    } else {
        s
    }
}

/// The ones'-complement checksum of `d`.
pub open spec fn inet_checksum_spec(d: Seq<u8>) -> u16 {
    (0xFFFF - fold_carries(word_sum(d))) as u16
}

/// One fold step keeps the value modulo 0xFFFF, keeps it positive and makes it smaller.
proof fn lemma_fold_step(s: nat)
    requires
        s > 0xFFFF,
    ensures
        (s % 0x10000 + s / 0x10000) % 0xFFFF == s % 0xFFFF,
        0 < s % 0x10000 + s / 0x10000 < s,
{
    let q = s / 0x10000;
    let r = s % 0x10000;
    lemma_fundamental_div_mod(s as int, 0x10000);
    assert(s == 0x10000 * q + r);
    assert(s == 0xFFFF * q + (q + r));
    lemma_mod_multiples_vanish(q as int, (q + r) as int, 0xFFFF);
}

/// Closed form of the carry fold.
pub proof fn lemma_fold_closed(s: nat)
    ensures
        fold_carries(s) == (if s == 0 { 0 } else { ((s - 1) % 0xFFFF + 1) as nat }),
    decreases s,
{
    if s > 0xFFFF {
        let t = s % 0x10000 + s / 0x10000;
        lemma_fold_step(s);
        lemma_fold_closed(t);
        lemma_sub_mod_noop(t as int, 1, 0xFFFF);
        lemma_sub_mod_noop(s as int, 1, 0xFFFF);
    }
}

/// Two sums that are both zero, or both nonzero and equal modulo 0xFFFF, fold alike.
pub proof fn lemma_fold_congruent(a: nat, b: nat)
    requires
        a % 0xFFFF == b % 0xFFFF,
        (a == 0) == (b == 0),
    ensures
        fold_carries(a) == fold_carries(b),
{
    lemma_fold_closed(a);
    lemma_fold_closed(b);
    if a != 0 {
        lemma_sub_mod_noop(a as int, 1, 0xFFFF);
        lemma_sub_mod_noop(b as int, 1, 0xFFFF);
    }
}

/// Splitting at an even index splits the word sum.
pub proof fn lemma_word_sum_split(d: Seq<u8>, i: int)
    requires
        0 <= i <= d.len(),
        i % 2 == 0,
    ensures
        word_sum(d) == word_sum(d.take(i)) + word_sum(d.skip(i)),
    decreases i,
{
    if i == 0 {
        assert(d.take(0) =~= Seq::<u8>::empty());
        assert(d.skip(0) =~= d);
    } else {
        let t = d.skip(2);
        lemma_word_sum_split(t, i - 2);
        assert(d.take(i).skip(2) =~= t.take(i - 2));
        assert(t.skip(i - 2) =~= d.skip(i));
        assert(d.take(i)[0] == d[0]);
        assert(d.take(i)[1] == d[1]);
    }
}

/// Appending one word to an even-length prefix adds that word.
proof fn lemma_word_sum_step(d: Seq<u8>, i: int)
    requires
        0 <= i,
        i + 2 <= d.len(),
        i % 2 == 0,
    ensures
        word_sum(d.take(i + 2)) == word_sum(d.take(i)) + d[i] + 256 * d[i + 1],
{
    let p = d.take(i + 2);
    lemma_word_sum_split(p, i);
    assert(p.take(i) =~= d.take(i));
    let w = p.skip(i);
    assert(w.len() == 2);
    assert(w[0] == d[i] && w[1] == d[i + 1]);
    assert(w.skip(2) =~= Seq::<u8>::empty());
    assert(word_sum(w.skip(2)) == 0);
    assert(word_sum(w) == w[0] + 256 * w[1]);
}

/// A trailing odd byte adds itself.
proof fn lemma_word_sum_last(d: Seq<u8>)
    requires
        d.len() % 2 == 1,
    ensures
        word_sum(d) == word_sum(d.take(d.len() - 1)) + d[d.len() - 1],
{
    let i = d.len() - 1;
    lemma_word_sum_split(d, i);
    assert(d.skip(i).len() == 1);
}

/// Computes the Internet checksum of `data`.
pub fn inet_checksum(data: &[u8]) -> (r: u16)
    ensures
        r == inet_checksum_spec(data@),
{
    let len = data.len();
    let mut sum: u64 = 0;
    let mut i: usize = 0;
    let ghost mut total: nat = 0;
    while i < len && len - i >= 2
        invariant
            len == data@.len(),
            i <= len,
            i % 2 == 0,
            total == word_sum(data@.take(i as int)),
            sum <= 0xFFFF,
            sum % 0xFFFF == total % 0xFFFF,
            (sum == 0) == (total == 0),
        decreases len - i,
    {
        let w: u64 = data[i] as u64 + 256 * (data[i + 1] as u64);
        proof {
            lemma_word_sum_step(data@, i as int);
            lemma_add_congruent(sum as nat, total, w as nat);
            total = total + w as nat;
        }
        sum = sum + w;
        if sum > 0xFFFF {
            proof {
                assert((sum & 0xFFFF) == sum % 0x10000 && (sum >> 16) == sum / 0x10000) by (bit_vector);
                lemma_fold_step(sum as nat);
            }
            let folded = (sum & 0xFFFF) + (sum >> 16);
            sum = folded;
        }
        i = i + 2;
    }
    if i < len {
        let b = data[i] as u64;
        proof {
            assert(data@.take(i as int) =~= data@.take(len - 1));
            assert(data@ =~= data@.take(len as int));
            lemma_word_sum_last(data@);
            lemma_add_congruent(sum as nat, total, b as nat);
            total = total + b as nat;
        }
        sum = sum + b;
    } else {
        assert(data@ =~= data@.take(len as int));
    }
    proof {
        lemma_fold_congruent(sum as nat, total);
    }
    while sum > 0xFFFF
        invariant
            fold_carries(sum as nat) == fold_carries(total),
        decreases sum,
    {
        proof {
            assert((sum & 0xFFFF) == sum % 0x10000 && (sum >> 16) == sum / 0x10000) by (bit_vector);
            lemma_fold_step(sum as nat);
        }
        let folded = (sum & 0xFFFF) + (sum >> 16);
        sum = folded;
    }
    assert(sum <= 0xFFFF ==> (!sum & 0xFFFF) == 0xFFFF - sum) by (bit_vector);
    let r = (!sum & 0xFFFF) as u16;
    r
}

/// Adding the same amount to two congruent values keeps them congruent, and nonzero.
proof fn lemma_add_congruent(a: nat, b: nat, w: nat)
    requires
        a % 0xFFFF == b % 0xFFFF,
        (a == 0) == (b == 0),
    ensures
        (a + w) % 0xFFFF == (b + w) % 0xFFFF,
        (a + w == 0) == (b + w == 0),
{
    vstd::arithmetic::div_mod::lemma_add_mod_noop(a as int, w as int, 0xFFFF);
    vstd::arithmetic::div_mod::lemma_add_mod_noop(b as int, w as int, 0xFFFF);
}

} // verus!
