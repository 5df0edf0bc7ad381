//! The Internet checksum (RFC 1071) as mathematics: the one's-complement sum of
//! the 16-bit big-endian words of a buffer, and the facts about it that the
//! protocol layers rely on.

use vstd::prelude::*;
use vstd::arithmetic::div_mod::lemma_mod_multiples_vanish;

verus! {

/// The octet at position `i`, or zero past the end of the buffer: an odd
/// trailing octet is summed as if one zero octet followed it.
pub open spec fn octet(buf: Seq<u8>, i: int) -> nat {
    if 0 <= i < buf.len() {
        buf[i] as nat
    } else {
        0
    }
}

/// The `k`-th 16-bit word of the buffer, most significant octet first.
pub open spec fn word(buf: Seq<u8>, k: int) -> nat {
    octet(buf, 2 * k) * 256 + octet(buf, 2 * k + 1)
}

/// How many 16-bit words the buffer holds, a trailing odd octet counted as one.
pub open spec fn word_count(buf: Seq<u8>) -> nat {
    (buf.len() + 1) / 2
}

/// The plain (unfolded) sum of the first `n` words of the buffer.
pub open spec fn word_sum(buf: Seq<u8>, n: nat) -> nat
    decreases n,
{
    if n == 0 {
        0
    } else {
        word_sum(buf, (n - 1) as nat) + word(buf, n - 1)
    }
}

/// The plain sum of all the words of the buffer.
pub open spec fn total(buf: Seq<u8>) -> nat {
    word_sum(buf, word_count(buf))
}

/// End-around carry: what lies above the low 16 bits is added back into them,
/// again and again until nothing lies above them.
pub open spec fn fold(n: nat) -> nat
    decreases n,
{
    if n < 0x1_0000 {
        n
    } else {
        fold(n % 0x1_0000 + n / 0x1_0000)
    }
}

/// The Internet checksum of the buffer: the complement, within 16 bits, of the
/// folded sum of its words.
pub open spec fn internet_checksum(buf: Seq<u8>) -> u16 {
    (0xffff - fold(total(buf))) as u16
}

/// The buffer with the 16-bit value `value` stored big-endian at `at`, `at + 1`.
pub open spec fn with_word(buf: Seq<u8>, at: int, value: u16) -> Seq<u8> {
    buf.update(at, (value / 256) as u8).update(at + 1, (value % 256) as u8)
}

/// Folding has a closed form: zero stays zero, and every other sum lands on the
/// one value in `1..=0xffff` that is congruent to it modulo `0xffff`.
pub proof fn lemma_fold_closed_form(n: nat)
    ensures
        n == 0 ==> fold(n) == 0,
        n > 0 ==> fold(n) == (n - 1) % 0xffff + 1,
        fold(n) <= 0xffff,
    decreases n,
{
    if n >= 0x1_0000 {
        // one step takes a multiple of 0xffff away: n == next + 0xffff * q
        let q = n / 0x1_0000;
        let next = n % 0x1_0000 + q;
        lemma_fold_closed_form(next as nat);
        lemma_mod_multiples_vanish(q as int, next - 1, 0xffff);
    }
}

/// Folding after each addition gives what folding once at the end gives.
pub proof fn lemma_fold_step(sum: nat, w: nat)
    ensures
        fold(fold(sum) + w) == fold(sum + w),
{
    lemma_fold_closed_form(sum);
    lemma_fold_closed_form(sum + w);
    lemma_fold_closed_form(fold(sum) + w);
    if sum > 0 {
        // sum + w - 1 == 0xffff * q + (r + w), and fold(sum) + w - 1 == r + w
        let q = (sum - 1) / 0xffff;
        let r = (sum - 1) % 0xffff;
        lemma_mod_multiples_vanish(q as int, (r + w) as int, 0xffff);
    }
}

/// Two buffers that agree on their first `n` words have the same sum of them.
pub proof fn lemma_word_sum_agrees(a: Seq<u8>, b: Seq<u8>, n: nat)
    requires
        forall|k: int| 0 <= k < n ==> word(a, k) == word(b, k),
    ensures
        word_sum(a, n) == word_sum(b, n),
    decreases n,
{
    if n > 0 {
        lemma_word_sum_agrees(a, b, (n - 1) as nat);
    }
}

/// Replacing one word of a buffer changes the sum by the difference of the two
/// words.
pub proof fn lemma_word_sum_replace(a: Seq<u8>, b: Seq<u8>, k: int, n: nat)
    requires
        0 <= k < n,
        forall|j: int| 0 <= j < n && j != k ==> word(a, j) == word(b, j),
    ensures
        word_sum(b, n) + word(a, k) == word_sum(a, n) + word(b, k),
    decreases n,
{
    if n - 1 == k {
        lemma_word_sum_agrees(a, b, k as nat);
    } else {
        lemma_word_sum_replace(a, b, k, (n - 1) as nat);
    }
}

/// The checksum is self-consistent. Take any buffer and a word-aligned
/// checksum field inside it. Clear the field, compute the checksum, and store
/// it in the field: the checksum of the result is zero.
pub proof fn lemma_checksum_self_consistent(buf: Seq<u8>, at: int)
    requires
        0 <= at,
        at % 2 == 0,
        at + 1 < buf.len(),
    ensures
        internet_checksum(
            with_word(with_word(buf, at, 0), at, internet_checksum(with_word(buf, at, 0))),
        ) == 0,
{
    let cleared = with_word(buf, at, 0);
    let filled = with_word(cleared, at, internet_checksum(cleared));
    // the field is one word, empty in `cleared`: total(filled) is total(cleared)
    // plus the checksum, which is 0xffff less the folded total(cleared)
    lemma_word_sum_replace(cleared, filled, at / 2, word_count(buf));
    lemma_fold_closed_form(total(cleared));
    lemma_fold_closed_form(total(filled));
    if total(cleared) > 0 {
        // total(filled) - 1 == 0xffff * q + 0xfffe
        let q = (total(cleared) - 1) / 0xffff;
        lemma_mod_multiples_vanish(q as int, 0xfffe, 0xffff);
    }
}

} // verus!
