//! Big-endian two's-complement integers of one to eight bytes.

use byteorder::{BigEndian, ByteOrder};
use vstd::prelude::*;

verus! {

/// 256 to the power `k`.
pub open spec fn pow256(k: nat) -> int
    decreases k,
{
    if k == 0 {
        1
    } else {
        256 * pow256((k - 1) as nat)
    }
}

/// True when `n` lies in the range of a two's-complement integer of `k` bytes.
pub open spec fn fits_signed(n: int, k: nat) -> bool {
    k >= 1 && -128 * pow256((k - 1) as nat) <= n < 128 * pow256((k - 1) as nat)
}

/// The `k` low-order bytes of `n` in two's complement, most significant first.
pub open spec fn be_bytes(n: int, k: nat) -> Seq<u8>
    decreases k,
{
    if k == 0 {
        Seq::empty()
    } else {
        be_bytes(n / 256, (k - 1) as nat).push((n % 256) as u8)
    }
}

/// The integer that the bytes `s` hold in two's complement, most significant
/// byte first. The first byte carries the sign.
pub open spec fn be_value(s: Seq<u8>) -> int
    decreases s.len(),
{
    if s.len() == 0 {
        0
    } else if s.len() == 1 {
        if s[0] >= 128 {
            s[0] - 256
        } else {
            s[0] as int
        }
    } else {
        256 * be_value(s.drop_last()) + s.last()
    }
}

/// The least number of bytes whose two's-complement range holds `n`.
pub open spec fn int_len(n: int) -> nat
    decreases (if n < 0 { -n } else { n }),
{
    if -128 <= n < 128 {
        1
    } else {
        1 + int_len(n / 256)
    }
}

/// The values of `pow256` that an `i64` can meet.
pub proof fn lemma_pow256_values()
    ensures
        pow256(0) == 1,
        pow256(1) == 0x100,
        pow256(2) == 0x1_0000,
        pow256(3) == 0x100_0000,
        pow256(4) == 0x1_0000_0000,
        pow256(5) == 0x100_0000_0000,
        pow256(6) == 0x1_0000_0000_0000,
        pow256(7) == 0x100_0000_0000_0000,
{
    reveal_with_fuel(pow256, 8);
}

/// `be_bytes(n, k)` has `k` bytes.
pub proof fn lemma_be_bytes_len(n: int, k: nat)
    ensures
        be_bytes(n, k).len() == k,
    decreases k,
{
    if k > 0 {
        lemma_be_bytes_len(n / 256, (k - 1) as nat);
    }
}

/// `int_len(n)` bytes hold `n`.
pub proof fn lemma_int_len_fits(n: int)
    ensures
        int_len(n) >= 1,
        fits_signed(n, int_len(n)),
    decreases (if n < 0 { -n } else { n }),
{
    if n < -128 || n >= 128 {
        lemma_int_len_fits(n / 256);
    }
}

/// `k` bytes hold `n` exactly when `k` is at least `int_len(n)`: the form
/// of `int_len(n)` bytes is the shortest.
pub proof fn lemma_int_len_least(n: int, k: nat)
    ensures
        fits_signed(n, k) <==> int_len(n) <= k && k >= 1,
    decreases k,
{
    lemma_int_len_fits(n);
    if k >= 2 {
        lemma_int_len_least(n / 256, (k - 1) as nat);
    }
}

/// An `i64` never needs more than eight bytes.
pub proof fn lemma_int_len_i64(n: i64)
    ensures
        1 <= int_len(n as int) <= 8,
{
    lemma_pow256_values();
    lemma_int_len_least(n as int, 8);
}

/// Reading back the `k` bytes written for `n` gives `n`, when `k` bytes hold it.
pub proof fn lemma_be_value_of_bytes(n: int, k: nat)
    requires
        fits_signed(n, k),
    ensures
        be_value(be_bytes(n, k)) == n,
    decreases k,
{
    lemma_be_bytes_len(n, k);
    if k > 1 {
        lemma_be_value_of_bytes(n / 256, (k - 1) as nat);
        assert(be_bytes(n, k).drop_last() =~= be_bytes(n / 256, (k - 1) as nat));
    }
}

/// The value of `k` bytes lies in the range of `k` bytes.
pub proof fn lemma_be_value_range(s: Seq<u8>)
    requires
        s.len() >= 1,
    ensures
        fits_signed(be_value(s), s.len()),
    decreases s.len(),
{
    if s.len() > 1 {
        lemma_be_value_range(s.drop_last());
    }
}

/// The value of one to eight bytes is an `i64`.
pub proof fn lemma_be_value_i64(s: Seq<u8>)
    requires
        1 <= s.len() <= 8,
    ensures
        i64::MIN <= be_value(s) <= i64::MAX,
{
    lemma_be_value_range(s);
    lemma_pow256_values();
}

/// Calls `byteorder::ByteOrder::write_int` of `BigEndian` on a fresh buffer of
/// `nbytes` bytes. The crate writes the `nbytes` low-order bytes of `n`, the
/// most significant first. It is documented to panic where `nbytes` bytes do
/// not hold `n` or `nbytes` is above eight, and it shifts by 64 bits on a
/// width of zero.
#[verifier::external_body]
fn write_int_be(n: i64, nbytes: usize) -> (out: Vec<u8>)
    requires
        1 <= nbytes <= 8,
        fits_signed(n as int, nbytes as nat),
    ensures
        out@ == be_bytes(n as int, nbytes as nat),
{
    let mut out = vec![0u8; nbytes];
    BigEndian::write_int(&mut out, n, nbytes);
    out
}

/// Calls `byteorder::ByteOrder::read_int` of `BigEndian` on the whole of
/// `data`. The crate reads the bytes as one unsigned big-endian number and
/// extends the sign from the top bit of the first byte. It panics on a width
/// outside one to eight.
#[verifier::external_body]
fn read_int_be(data: &[u8]) -> (n: i64)
    requires
        1 <= data@.len() <= 8,
    ensures
        n as int == be_value(data@),
{
    BigEndian::read_int(data, data.len())
}

/// The number of content bytes of the shortest two's-complement form of `n`.
pub fn integer_width(n: i64) -> (k: usize)
    ensures
        k as nat == int_len(n as int),
        1 <= k <= 8,
{
    let mut k: usize = 1;
    let mut m: i64 = n;
    proof {
        lemma_int_len_i64(n);
    }
    while m < -128 || m > 127
        invariant
            1 <= k,
            int_len(n as int) == (k - 1) + int_len(m as int),
            int_len(n as int) <= 8,
        decreases (if m < 0 { -m } else { m as int }),
    {
        if m >= 0 {
            m = m / 256;
        } else {
            m = -1 - ((-1 - m) / 256);
        }
        k = k + 1;
    }
    k
}

/// The shortest big-endian two's-complement form of `n`.
pub fn integer_to_bytes(n: i64) -> (out: Vec<u8>)
    ensures
        out@ == be_bytes(n as int, int_len(n as int)),
        1 <= out@.len() <= 8,
{
    let k = integer_width(n);
    proof {
        lemma_int_len_fits(n as int);
        lemma_be_bytes_len(n as int, k as nat);
    }
    write_int_be(n, k)
}

/// The integer held by one to eight bytes of big-endian two's complement;
/// `None` for any other number of bytes.
pub fn integer_from_bytes(data: &[u8]) -> (r: Option<i64>)
    ensures
        r is Some <==> 1 <= data@.len() <= 8,
        r matches Some(n) ==> n as int == be_value(data@),
{
    if data.len() > 8 || data.len() < 1 {
        return None;
    }
    Some(read_int_be(data))
}

} // verus!
