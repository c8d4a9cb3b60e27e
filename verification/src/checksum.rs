//! The Internet checksum: the one's-complement of the one's-complement sum
//! of the 16-bit big-endian words of a byte string, with end-around carry.
//! A byte string of odd length is padded with one zero byte before summing.

use crate::util::be_bytes16;
use vstd::prelude::*;

verus! {

/// One's-complement addition of two 16-bit words: plain addition with the
/// carry out of bit 15 folded back into bit 0.
pub open spec fn checksum_add(a: int, b: int) -> int {
    if a + b > 0xFFFF {
        a + b - 0xFFFF
    } else {
        a + b
    }
}

/// How many 16-bit words `b` holds, an odd final byte padded.
pub open spec fn num_words(b: Seq<u8>) -> int {
    (b.len() + 1) as int / 2
}

/// The `j`-th 16-bit big-endian word of `b`, a missing low byte read as zero.
pub open spec fn word_at(b: Seq<u8>, j: int) -> int {
    b[2 * j] * 256 + (if 2 * j + 1 < b.len() {
        b[2 * j + 1] as int
    } else {
        0
    })
}

/// `b` as a sequence of 16-bit words.
pub open spec fn word_seq(b: Seq<u8>) -> Seq<int> {
    Seq::new(num_words(b) as nat, |j: int| word_at(b, j))
}

/// The one's-complement sum of a word sequence, folded left to right.
pub open spec fn sum_words(ws: Seq<int>) -> int
    decreases ws.len(),
{
    if ws.len() == 0 {
        0
    } else {
        checksum_add(sum_words(ws.drop_last()), ws.last())
    }
}

/// The plain integer sum of a word sequence.
pub open spec fn int_sum(ws: Seq<int>) -> int
    decreases ws.len(),
{
    if ws.len() == 0 {
        0
    } else {
        int_sum(ws.drop_last()) + ws.last()
    }
}

/// Every word is in the 16-bit range.
pub open spec fn words_in_range(ws: Seq<int>) -> bool {
    forall|i: int| 0 <= i < ws.len() ==> 0 <= #[trigger] ws[i] <= 0xFFFF
}

/// The Internet checksum of `b`: the complement of the folded sum.
pub open spec fn checksum_of(b: Seq<u8>) -> int {
    0xFFFF - sum_words(word_seq(b))
}

/// The words of a byte string are 16-bit values.
pub proof fn lemma_word_seq_in_range(b: Seq<u8>)
    ensures
        words_in_range(word_seq(b)),
        word_seq(b).len() == num_words(b),
{
}

/// The folded sum of 16-bit words is itself a 16-bit value.
pub proof fn lemma_sum_words_range(ws: Seq<int>)
    requires
        words_in_range(ws),
    ensures
        0 <= sum_words(ws) <= 0xFFFF,
    decreases ws.len(),
{
    if ws.len() > 0 {
        assert(words_in_range(ws.drop_last())) by {
            assert(forall|i: int|
                0 <= i < ws.len() - 1 ==> #[trigger] ws.drop_last()[i] == ws[i]);
        }
        lemma_sum_words_range(ws.drop_last());
        assert(0 <= ws.last() <= 0xFFFF);
    }
}

/// `m` carries were folded back: the plain sum exceeds the one's-complement
/// sum by `m` times 0xFFFF.
pub open spec fn carries_folded(ws: Seq<int>, m: int) -> bool {
    m >= 0 && int_sum(ws) == sum_words(ws) + m * 0xFFFF
}

/// Folding with end-around carry loses exactly a multiple of 0xFFFF against
/// the plain sum.
pub proof fn lemma_sum_words_carries(ws: Seq<int>)
    requires
        words_in_range(ws),
    ensures
        exists|m: int| #[trigger] carries_folded(ws, m),
    decreases ws.len(),
{
    if ws.len() == 0 {
        assert(carries_folded(ws, 0));
    } else {
        assert(words_in_range(ws.drop_last())) by {
            assert(forall|i: int|
                0 <= i < ws.len() - 1 ==> #[trigger] ws.drop_last()[i] == ws[i]);
        }
        lemma_sum_words_carries(ws.drop_last());
        lemma_sum_words_range(ws.drop_last());
        let m0 = choose|m: int| #[trigger] carries_folded(ws.drop_last(), m);
        assert(0 <= ws.last() <= 0xFFFF);
        if sum_words(ws.drop_last()) + ws.last() > 0xFFFF {
            assert(carries_folded(ws, m0 + 1));
        } else {
            assert(carries_folded(ws, m0));
        }
    }
}

/// The folded sum is zero only when every word is zero.
pub proof fn lemma_sum_words_zero(ws: Seq<int>)
    requires
        words_in_range(ws),
        exists|i: int| 0 <= i < ws.len() && ws[i] != 0,
    ensures
        sum_words(ws) != 0,
    decreases ws.len(),
{
    let i = choose|i: int| 0 <= i < ws.len() && ws[i] != 0;
    assert(words_in_range(ws.drop_last())) by {
        assert(forall|j: int|
            0 <= j < ws.len() - 1 ==> #[trigger] ws.drop_last()[j] == ws[j]);
    }
    lemma_sum_words_range(ws.drop_last());
    if i == ws.len() - 1 {
        assert(ws.last() != 0);
    } else {
        assert(ws.drop_last()[i] == ws[i]);
        lemma_sum_words_zero(ws.drop_last());
    }
}

/// Replacing one entry of a word sequence shifts the plain sum by the
/// difference of the entries.
pub proof fn lemma_int_sum_update(ws: Seq<int>, j: int, v: int)
    requires
        0 <= j < ws.len(),
    ensures
        int_sum(ws.update(j, v)) == int_sum(ws) - ws[j] + v,
    decreases ws.len(),
{
    let ws2 = ws.update(j, v);
    if j == ws.len() - 1 {
        assert(ws2.drop_last() =~= ws.drop_last());
    } else {
        assert(ws2.drop_last() =~= ws.drop_last().update(j, v));
        lemma_int_sum_update(ws.drop_last(), j, v);
        assert(ws.drop_last()[j] == ws[j]);
        assert(ws2.last() == ws.last());
    }
}

/// Computes the Internet checksum of `data` and returns its two big-endian
/// bytes.
pub fn compute_checksum(data: &[u8]) -> (r: [u8; 2])
    requires
        data@.len() < usize::MAX,
    ensures
        r@.len() == 2,
        r@ == be_bytes16(checksum_of(data@)),
        0 <= checksum_of(data@) <= 0xFFFF,
{
    let ghost ws = word_seq(data@);
    proof {
        lemma_word_seq_in_range(data@);
    }
    let mut acc: u32 = 0;
    let mut i: usize = 0;
    while i < data.len()
        invariant
            i % 2 == 0,
            data@.len() < usize::MAX,
            i <= data@.len() + 1,
            ws == word_seq(data@),
            words_in_range(ws),
            ws.len() == num_words(data@),
            i / 2 <= ws.len(),
            acc == sum_words(ws.take(i as int / 2)),
            acc <= 0xFFFF,
        decreases data@.len() + 2 - i,
    {
        let ghost j = i as int / 2;
        let high = data[i] as u32;
        let low = if i + 1 < data.len() {
            data[i + 1] as u32
        } else {
            0
        };
        let word = high * 256 + low;
        proof {
            assert(ws[j] == word_at(data@, j));
            assert(word == ws[j]);
            assert(ws.take(j + 1).drop_last() =~= ws.take(j));
            assert(ws.take(j + 1).last() == ws[j]);
        }
        let sum = acc + word;
        if sum > 0xFFFF {
            acc = sum - 0xFFFF;
        } else {
            acc = sum;
        }
        i = i + 2;
    }
    proof {
        assert(i as int / 2 == ws.len());
        assert(ws.take(ws.len() as int) =~= ws);
        lemma_sum_words_range(ws);
    }
    let complement: u16 = 0xFFFF - (acc as u16);
    let r = [(complement / 256) as u8, (complement % 256) as u8];
    proof {
        assert(r@ =~= be_bytes16(checksum_of(data@)));
    }
    r
}

/// Writing the checksum of a byte string into a zeroed 16-bit field of that
/// byte string makes the whole string sum to zero: verifying a frame that
/// carries its own correct, non-zero checksum yields checksum zero, and
/// zeroing the field again recomputes the original value.
pub proof fn lemma_checksum_round_trip(b: Seq<u8>, k: int)
    requires
        0 <= k,
        k % 2 == 0,
        k + 1 < b.len(),
        b[k] * 256 + b[k + 1] == checksum_of(b.update(k, 0).update(k + 1, 0)),
        checksum_of(b.update(k, 0).update(k + 1, 0)) != 0,
    ensures
        checksum_of(b) == 0,
{
    let b0 = b.update(k, 0).update(k + 1, 0);
    let ws0 = word_seq(b0);
    let ws = word_seq(b);
    let j = k / 2;
    let s0 = sum_words(ws0);
    let c = b[k] * 256 + b[k + 1];

    lemma_word_seq_in_range(b0);
    lemma_word_seq_in_range(b);
    lemma_sum_words_range(ws0);
    assert(c == 0xFFFF - s0);

    // The two word sequences differ only in word `j`, which holds the
    // checksum in `b` and zero in `b0`.
    assert(ws =~= ws0.update(j, c)) by {
        assert(2 * j == k);
        assert(forall|i: int| 0 <= i < ws.len() && i != j ==> #[trigger] ws[i] == ws0[i]) by {
            assert(forall|i: int|
                0 <= i < b.len() && i != k && i != k + 1 ==> #[trigger] b0[i] == b[i]);
        }
        assert(word_at(b, j) == c);
        assert(word_at(b0, j) == 0);
    }

    lemma_sum_words_carries(ws0);
    lemma_sum_words_carries(ws);
    let m0 = choose|m: int| #[trigger] carries_folded(ws0, m);
    let m1 = choose|m: int| #[trigger] carries_folded(ws, m);
    lemma_int_sum_update(ws0, j, c);
    assert(ws0[j] == 0);
    assert(int_sum(ws) == int_sum(ws0) + c);
    assert(int_sum(ws) == (m0 + 1) * 0xFFFF);
    let s = sum_words(ws);
    lemma_sum_words_range(ws);
    assert(s == (m0 + 1 - m1) * 0xFFFF);
    assert(ws[j] == c);
    assert(c != 0);
    lemma_sum_words_zero(ws);
    assert(s != 0);
    assert(s == 0xFFFF);
}

} // verus!
