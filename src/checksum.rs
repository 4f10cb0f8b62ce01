//! The Internet checksum (one's-complement sum of 16-bit big-endian words).
use vstd::arithmetic::div_mod::{lemma_add_mod_noop, lemma_mod_multiples_vanish};
use vstd::prelude::*;

verus! {

/// The `i`-th 16-bit big-endian word of `s`; a trailing odd byte is the high
/// byte of a zero-padded word.
pub open spec fn word_at(s: Seq<u8>, i: int) -> nat {
    let hi = s[2 * i] as nat;
    let lo: nat = if 2 * i + 1 < s.len() {
        s[2 * i + 1] as nat
    } else {
        0
    };
    hi * 256 + lo
}

/// How many 16-bit words cover `s`.
pub open spec fn word_count(s: Seq<u8>) -> nat {
    (s.len() + 1) / 2
}

/// The plain sum of the first `n` words of `s`.
pub open spec fn sum_words(s: Seq<u8>, n: nat) -> nat
    decreases n,
{
    if n == 0 {
        0
    } else {
        sum_words(s, (n - 1) as nat) + word_at(s, n - 1)
    }
}

/// Folds the carries above bit 15 back into bits 0-15 until none remain.
pub open spec fn fold_carries(x: nat) -> nat
    decreases x,
{
    if x <= 0xffff {
        x
    } else {
        fold_carries(x % 0x10000 + x / 0x10000)
    }
}

/// The Internet checksum of `s`: the one's complement of the folded sum of its words.
pub open spec fn internet_checksum(s: Seq<u8>) -> int {
    0xffff - fold_carries(sum_words(s, word_count(s)))
}

/// `s` with the checksum of `s` written big-endian into bytes 2 and 3.
pub open spec fn with_checksum(s: Seq<u8>) -> Seq<u8> {
    let c = internet_checksum(s);
    s.update(2, (c / 256) as u8).update(3, (c % 256) as u8)
}

/// Folding carries is reduction modulo 0xffff onto the range 1..=0xffff
/// (zero alone stays zero).
pub proof fn lemma_fold_closed_form(x: nat)
    ensures
        fold_carries(x) == if x == 0 {
            0
        } else {
            ((x - 1) % 0xffff + 1) as nat
        },
    decreases x,
{
    if x > 0xffff {
        let q = x / 0x10000;
        let r = x % 0x10000;
        let y = r + q;
        assert(x == 0x10000 * q + r);
        lemma_fold_closed_form(y);
        assert(x - 1 == 0xffff * q + (y - 1));
        lemma_mod_multiples_vanish(q as int, y - 1, 0xffff);
    }
}

/// Adding one word to a folded sum and folding once more gives the fold of
/// the plain sum.
pub proof fn lemma_fold_step(a: nat, w: nat)
    requires
        w <= 0xffff,
    ensures
        fold_carries(a) <= 0xffff,
        fold_carries(a + w) == if fold_carries(a) + w > 0xffff {
            (fold_carries(a) + w - 0xffff) as nat
        } else {
            fold_carries(a) + w
        },
{
    lemma_fold_closed_form(a);
    lemma_fold_closed_form(a + w);
    if a > 0 {
        let r = (a - 1) % 0xffff;
        lemma_add_mod_noop(a - 1, w as int, 0xffff);
        assert(w % 0xffff == if w == 0xffff { 0 } else { w as int });
        if r + w >= 0xffff {
            lemma_mod_multiples_vanish(1, r + w - 0xffff, 0xffff);
        }
    }
}

/// Changing only word 1 of a buffer from zero to `c` adds `c` to every sum
/// that covers it.
proof fn lemma_sum_with_word_one(s: Seq<u8>, t: Seq<u8>, c: nat, n: nat)
    requires
        s.len() == t.len(),
        s.len() >= 4,
        2 <= n <= word_count(s),
        word_at(s, 1) == 0,
        word_at(t, 1) == c,
        forall|i: int| 0 <= i < s.len() && i != 2 && i != 3 ==> s[i] == t[i],
    ensures
        sum_words(t, n) == sum_words(s, n) + c,
    decreases n,
{
    if n > 2 {
        lemma_sum_with_word_one(s, t, c, (n - 1) as nat);
        assert(word_at(t, n - 1) == word_at(s, n - 1));
    } else {
        reveal_with_fuel(sum_words, 3);
        assert(word_at(t, 0) == word_at(s, 0));
    }
}

/// A buffer whose checksum field was zero when its checksum was written
/// checksums to zero.
pub proof fn lemma_checksum_verifies(s: Seq<u8>)
    requires
        s.len() >= 4,
        s[2] == 0,
        s[3] == 0,
    ensures
        internet_checksum(with_checksum(s)) == 0,
{
    let total = sum_words(s, word_count(s));
    lemma_fold_closed_form(total);
    let c = internet_checksum(s);
    let t = with_checksum(s);
    assert(0 <= c <= 0xffff);
    assert(word_at(t, 1) == c);
    lemma_sum_with_word_one(s, t, c as nat, word_count(s));
    lemma_fold_closed_form((total + c) as nat);
    if total > 0 {
        let q = (total - 1) / 0xffff;
        let r = (total - 1) % 0xffff;
        assert(total - 1 == 0xffff * q + r);
        assert(total + c - 1 == 0xffff * q + 0xfffe);
        lemma_mod_multiples_vanish(q, 0xfffe, 0xffff);
    }
}

} // verus!
