//! The internet checksum: the 16-bit ones'-complement sum used by the IPv4
//! header checksum and, over a pseudo-header, by the TCP checksum.

use vstd::prelude::*;

verus! {

/// The sum of the big-endian 16-bit words of a byte sequence; an odd
/// trailing byte is padded with zero on the right.
pub open spec fn sum_words(s: Seq<u8>) -> int
    decreases s.len(),
{
    if s.len() == 0 {
        0
    } else if s.len() == 1 {
        s[0] * 256
    } else {
        s[0] * 256 + s[1] + sum_words(s.skip(2))
    }
}

/// Fold the carries of a ones'-complement sum back into 16 bits.
/// The folded value is the sum modulo 65535, with a non-zero sum that is a
/// multiple of 65535 represented as 0xffff rather than 0.
pub open spec fn ones_complement_fold(x: int) -> int {
    if x == 0 {
        0
    } else if x % 65535 == 0 {
        65535
    } else {
        x % 65535
    }
}

/// The internet checksum of a byte sequence: the complement of the folded
/// ones'-complement sum of its 16-bit words.
pub open spec fn internet_checksum(s: Seq<u8>) -> u16 {
    (0xffff - ones_complement_fold(sum_words(s))) as u16
}

/// Adding one word keeps the sum over a growing prefix in step.
proof fn lemma_sum_words_take(s: Seq<u8>, i: int)
    requires
        0 <= i,
        i % 2 == 0,
        i + 2 <= s.len(),
    ensures
        sum_words(s.take(i + 2)) == sum_words(s.take(i)) + s[i] * 256 + s[i + 1],
    decreases i,
{
    if i == 0 {
        assert(s.take(0) =~= Seq::<u8>::empty());
        assert(s.take(2) =~= seq![s[0], s[1]]);
        assert(s.take(2).skip(2) =~= Seq::<u8>::empty());
    } else {
        lemma_sum_words_take(s.skip(2), i - 2);
        assert(s.take(i).skip(2) =~= s.skip(2).take(i - 2));
        assert(s.take(i + 2).skip(2) =~= s.skip(2).take(i - 2 + 2));
    }
}

/// Sums of words are never negative.
proof fn lemma_sum_words_nonneg(s: Seq<u8>)
    ensures
        sum_words(s) >= 0,
    decreases s.len(),
{
    if s.len() >= 2 {
        lemma_sum_words_nonneg(s.skip(2));
    }
}

/// Sums of words are bounded by the word count.
proof fn lemma_sum_words_bound(s: Seq<u8>)
    ensures
        sum_words(s) <= s.len() * 65535,
    decreases s.len(),
{
    if s.len() == 0 {
    } else if s.len() == 1 {
    } else {
        lemma_sum_words_bound(s.skip(2));
        assert(s[0] * 256 + s[1] <= 65535);
        assert(s.skip(2).len() * 65535 <= s.len() * 65535) by (nonlinear_arith)
            requires
                s.skip(2).len() == s.len() - 2,
        ;
    }
}

/// Compute the internet checksum of an even-length byte buffer.
pub fn checksum16(data: &[u8]) -> (r: u16)
    requires
        data@.len() % 2 == 0,
        data@.len() <= 65536,
    ensures
        r == internet_checksum(data@),
{
    let n = data.len();
    let mut acc: u64 = 0;
    let mut i: usize = 0;
    proof {
        assert(data@.take(0) =~= Seq::<u8>::empty());
    }
    while i < n
        invariant
            n == data@.len(),
            n <= 65536,
            i <= n,
            i % 2 == 0,
            n % 2 == 0,
            acc == sum_words(data@.take(i as int)),
            acc <= i * 65535,
        decreases n - i,
    {
        let w: u64 = (data[i] as u64) * 256 + (data[i + 1] as u64);
        proof {
            lemma_sum_words_take(data@, i as int);
            assert((i + 2) * 65535 == i * 65535 + 2 * 65535) by (nonlinear_arith);
        }
        acc = acc + w;
        i = i + 2;
    }
    proof {
        assert(data@.take(n as int) =~= data@);
        lemma_sum_words_nonneg(data@);
    }
    let ghost total = acc as int;
    while acc > 0xffff
        invariant
            acc % 65535 == total % 65535,
            total > 0 ==> acc > 0,
            total == 0 ==> acc == 0,
        decreases acc,
    {
        let hi: u64 = acc >> 16;
        let lo: u64 = acc & 0xffff;
        proof {
            assert(hi == acc as int / 65536 && lo == acc as int % 65536) by (bit_vector)
                requires
                    hi == acc >> 16,
                    lo == acc & 0xffff,
            ;
            assert((lo + hi) % 65535 == acc % 65535) by (nonlinear_arith)
                requires
                    hi == acc as int / 65536,
                    lo == acc as int % 65536,
                    acc > 0xffff,
            ;
            assert(lo + hi < acc) by (nonlinear_arith)
                requires
                    hi == acc as int / 65536,
                    lo == acc as int % 65536,
                    acc > 0xffff,
            ;
            assert(hi >= 1);
        }
        acc = lo + hi;
    }
    proof {
        if total == 0 {
            assert(acc == 0);
        } else if total % 65535 == 0 {
            assert(acc > 0 && acc <= 0xffff && acc % 65535 == 0);
            assert(acc == 65535);
        } else {
            assert(acc % 65535 != 0);
            assert(acc != 65535);
            assert(acc < 65535);
            assert(acc == acc as int % 65535);
        }
        assert(acc == ones_complement_fold(total));
    }
    0xffffu16 - (acc as u16)
}

} // verus!
