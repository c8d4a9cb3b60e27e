//! Big-endian conversions between byte strings and integers, shared by all
//! of the frame codecs.

use vstd::prelude::*;
use vstd::string::StringExecFns;

verus! {

/// The value of a big-endian byte string: each byte is a base-256 digit and
/// the first byte is the most significant.
pub open spec fn be_val(b: Seq<u8>) -> int
    decreases b.len(),
{
    if b.len() == 0 {
        0
    } else {
        be_val(b.drop_last()) * 256 + b.last()
    }
}

/// 2 to the power `e`.
pub open spec fn two_to(e: nat) -> int
    decreases e,
{
    if e == 0 {
        1
    } else {
        2 * two_to((e - 1) as nat)
    }
}

/// 256 to the power `e`: the number of values a byte string of length `e`
/// can take.
pub open spec fn byte_weight(e: nat) -> int
    decreases e,
{
    if e == 0 {
        1
    } else {
        256 * byte_weight((e - 1) as nat)
    }
}

/// A big-endian byte string of length `n` denotes a value below `256^n`.
pub proof fn lemma_be_val_bound(b: Seq<u8>)
    ensures
        0 <= be_val(b) < byte_weight(b.len()),
    decreases b.len(),
{
    if b.len() > 0 {
        lemma_be_val_bound(b.drop_last());
    }
}

/// Reads up to four bytes as one big-endian unsigned integer.
pub fn bytes_to_u32(bytes: &[u8]) -> (r: u32)
    requires
        1 <= bytes@.len() <= 4,
    ensures
        r == be_val(bytes@),
{
    let mut result: u32 = 0;
    let mut i: usize = 0;
    while i < bytes.len()
        invariant
            1 <= bytes@.len() <= 4,
            i <= bytes@.len(),
            result == be_val(bytes@.take(i as int)),
        decreases bytes@.len() - i,
    {
        proof {
            lemma_be_val_bound(bytes@.take(i as int));
            assert(byte_weight(0) == 1);
            assert(byte_weight(1) == 256);
            assert(byte_weight(2) == 65536);
            assert(byte_weight(3) == 16777216);
            assert(bytes@.take(i + 1).drop_last() =~= bytes@.take(i as int));
            assert(bytes@.take(i + 1).last() == bytes@[i as int]);
        }
        result = result * 256 + bytes[i] as u32;
        i = i + 1;
    }
    proof {
        assert(bytes@.take(bytes@.len() as int) =~= bytes@);
    }
    result
}

/// The first byte of `b` with its `n_prefix` most significant bits cleared.
pub open spec fn mask_prefix(b: u8, n_prefix: int) -> u8 {
    ((b as int) % two_to((8 - n_prefix) as nat)) as u8
}

/// Reads up to four bytes as one big-endian unsigned integer, ignoring the
/// `n_prefix` most significant bits of the first byte.
pub fn bytes_to_u32_no_prefix(bytes: &[u8], n_prefix: u32) -> (r: u32)
    requires
        1 <= bytes@.len() <= 4,
        1 <= n_prefix <= 8,
    ensures
        r == be_val(bytes@.update(0, mask_prefix(bytes@[0], n_prefix as int))),
{
    let shift: u32 = 8 - n_prefix;
    let mut modulus: u32 = 1;
    let mut k: u32 = 0;
    while k < shift
        invariant
            k <= shift <= 7,
            modulus == two_to(k as nat),
        decreases shift - k,
    {
        proof {
            assert(two_to(0) == 1);
            assert(two_to(1) == 2);
            assert(two_to(2) == 4);
            assert(two_to(3) == 8);
            assert(two_to(4) == 16);
            assert(two_to(5) == 32);
            assert(two_to(6) == 64);
            assert(two_to(7) == 128);
        }
        modulus = modulus * 2;
        k = k + 1;
    }
    proof {
        assert(two_to(0) == 1);
        assert(two_to(1) == 2);
        assert(two_to(2) == 4);
        assert(two_to(3) == 8);
        assert(two_to(4) == 16);
        assert(two_to(5) == 32);
        assert(two_to(6) == 64);
        assert(two_to(7) == 128);
    }
    let masked: u8 = ((bytes[0] as u32) % modulus) as u8;
    let ghost replaced = bytes@.update(0, mask_prefix(bytes@[0], n_prefix as int));
    let mut result: u32 = masked as u32;
    proof {
        assert(masked == mask_prefix(bytes@[0], n_prefix as int));
        assert(replaced.take(1).drop_last() =~= Seq::<u8>::empty());
        assert(be_val(Seq::<u8>::empty()) == 0);
        assert(replaced.take(1).last() == masked);
    }
    let mut i: usize = 1;
    while i < bytes.len()
        invariant
            1 <= bytes@.len() <= 4,
            1 <= i <= bytes@.len(),
            replaced == bytes@.update(0, mask_prefix(bytes@[0], n_prefix as int)),
            replaced.len() == bytes@.len(),
            result == be_val(replaced.take(i as int)),
        decreases bytes@.len() - i,
    {
        proof {
            lemma_be_val_bound(replaced.take(i as int));
            assert(byte_weight(0) == 1);
            assert(byte_weight(1) == 256);
            assert(byte_weight(2) == 65536);
            assert(byte_weight(3) == 16777216);
            assert(replaced.take(i + 1).drop_last() =~= replaced.take(i as int));
            assert(replaced.take(i + 1).last() == bytes@[i as int]);
        }
        result = result * 256 + bytes[i] as u32;
        i = i + 1;
    }
    proof {
        assert(replaced.take(replaced.len() as int) =~= replaced);
    }
    result
}

/// The character of one decimal digit.
pub open spec fn dec_digit(d: int) -> char {
    if d == 0 {
        '0'
    } else if d == 1 {
        '1'
    } else if d == 2 {
        '2'
    } else if d == 3 {
        '3'
    } else if d == 4 {
        '4'
    } else if d == 5 {
        '5'
    } else if d == 6 {
        '6'
    } else if d == 7 {
        '7'
    } else if d == 8 {
        '8'
    } else {
        '9'
    }
}

/// The decimal digits of a non-negative number, most significant first and
/// without leading zeroes.
pub open spec fn dec_chars(n: int) -> Seq<char>
    decreases n,
{
    if n < 10 {
        seq![dec_digit(n)]
    } else {
        dec_chars(n / 10).push(dec_digit(n % 10))
    }
}

/// One decimal digit as text.
fn digit_str(d: u32) -> (r: &'static str)
    requires
        d < 10,
    ensures
        r@ == seq![dec_digit(d as int)],
{
    let r: &'static str = if d == 0 {
        "0"
    } else if d == 1 {
        "1"
    } else if d == 2 {
        "2"
    } else if d == 3 {
        "3"
    } else if d == 4 {
        "4"
    } else if d == 5 {
        "5"
    } else if d == 6 {
        "6"
    } else if d == 7 {
        "7"
    } else if d == 8 {
        "8"
    } else {
        "9"
    };
    proof {
        reveal_strlit("0");
        reveal_strlit("1");
        reveal_strlit("2");
        reveal_strlit("3");
        reveal_strlit("4");
        reveal_strlit("5");
        reveal_strlit("6");
        reveal_strlit("7");
        reveal_strlit("8");
        reveal_strlit("9");
        assert(r@ =~= seq![dec_digit(d as int)]);
    }
    r
}

/// Appends the decimal rendering of `n` to `s`.
pub fn append_decimal(s: &mut String, n: u32)
    ensures
        final(s)@ == old(s)@ + dec_chars(n as int),
    decreases n,
{
    if n < 10 {
        s.append(digit_str(n));
    } else {
        append_decimal(s, n / 10);
        s.append(digit_str(n % 10));
        proof {
            assert(old(s)@ + dec_chars(n as int) =~= (old(s)@ + dec_chars(n as int / 10)) + seq![
                dec_digit(n as int % 10),
            ]);
        }
    }
}

/// Each byte vector of `frames` views as the corresponding entry of
/// `models`.
pub open spec fn views_match(frames: Seq<Vec<u8>>, models: Seq<Seq<u8>>) -> bool {
    &&& frames.len() == models.len()
    &&& forall|k: int| 0 <= k < models.len() ==> frames[k]@ == #[trigger] models[k]
}

/// Appends every byte of `other` to `v`.
pub fn push_bytes(v: &mut Vec<u8>, other: &[u8])
    ensures
        final(v)@ == old(v)@ + other@,
{
    let mut i: usize = 0;
    while i < other.len()
        invariant
            i <= other@.len(),
            v@ == old(v)@ + other@.take(i as int),
        decreases other@.len() - i,
    {
        v.push(other[i]);
        proof {
            assert(old(v)@ + other@.take(i + 1) =~= (old(v)@ + other@.take(i as int)).push(
                other@[i as int],
            ));
        }
        i = i + 1;
    }
    proof {
        assert(other@.take(other@.len() as int) =~= other@);
    }
}

/// The two big-endian bytes of a 16-bit value.
pub open spec fn be_bytes16(v: int) -> Seq<u8> {
    seq![(v / 256) as u8, (v % 256) as u8]
}

/// The four big-endian bytes of a 32-bit value.
pub open spec fn be_bytes32(v: int) -> Seq<u8> {
    seq![
        (v / 0x1000000) as u8,
        ((v / 0x10000) % 256) as u8,
        ((v / 256) % 256) as u8,
        (v % 256) as u8,
    ]
}

/// Splits an unsigned 16-bit integer into its two big-endian bytes.
pub fn u16_to_bytes(number: u16) -> (r: [u8; 2])
    ensures
        r@.len() == 2,
        be_val(r@) == number,
        r@ == be_bytes16(number as int),
        r@[0] == number / 256,
        r@[1] == number % 256,
{
    let highest = (number / 256) as u8;
    let lowest = (number % 256) as u8;
    let r = [highest, lowest];
    proof {
        assert(r@ =~= be_bytes16(number as int));
        assert(r@.drop_last() =~= seq![highest]);
        assert(seq![highest].drop_last() =~= Seq::<u8>::empty());
        assert(be_val(Seq::<u8>::empty()) == 0);
        assert(be_val(seq![highest]) == highest);
        assert(be_val(r@) == highest * 256 + lowest);
    }
    r
}

/// Splits an unsigned 32-bit integer into its four big-endian bytes.
pub fn u32_to_bytes(number: u32) -> (r: [u8; 4])
    ensures
        r@.len() == 4,
        be_val(r@) == number,
        r@ == be_bytes32(number as int),
{
    let first = (number / 0x1000000) as u8;
    let second = ((number / 0x10000) % 256) as u8;
    let third = ((number / 256) % 256) as u8;
    let fourth = (number % 256) as u8;
    let r = [first, second, third, fourth];
    proof {
        assert(r@ =~= be_bytes32(number as int));
        assert(r@.drop_last() =~= seq![first, second, third]);
        assert(seq![first, second, third].drop_last() =~= seq![first, second]);
        assert(seq![first, second].drop_last() =~= seq![first]);
        assert(seq![first].drop_last() =~= Seq::<u8>::empty());
        assert(be_val(Seq::<u8>::empty()) == 0);
        assert(be_val(seq![first]) == first);
        assert(be_val(seq![first, second]) == first * 256 + second);
        assert(be_val(seq![first, second, third]) == (first * 256 + second) * 256 + third);
        assert(be_val(r@) == ((first * 256 + second) * 256 + third) * 256 + fourth);
        assert(number == (number / 0x1000000) * 0x1000000 + ((number / 0x10000) % 256) * 0x10000
            + ((number / 256) % 256) * 256 + number % 256) by (nonlinear_arith);
    }
    r
}

} // verus!
