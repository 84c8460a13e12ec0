//! Packing of object identifiers into their wire bytes, and back.
//!
//! The first two sub-identifiers `x` and `y` share one leading byte,
//! `40 * x + y`. Every later sub-identifier is written in groups of seven
//! bits, most significant group first, with the top bit set on every byte but
//! the last of the sub-identifier.

use crate::types::SnmpError;
use vstd::prelude::*;

verus! {

/// The groups of `v` that carry the continuation bit: one byte for every
/// seven bits of `v`, none for zero.
pub open spec fn base128_high(v: nat) -> Seq<u8>
    decreases v,
{
    if v == 0 {
        Seq::empty()
    } else {
        base128_high(v / 128).push((128 + v % 128) as u8)
    }
}

/// One sub-identifier on the wire.
pub open spec fn base128(v: nat) -> Seq<u8> {
    base128_high(v / 128).push((v % 128) as u8)
}

/// The sub-identifiers `s` on the wire, one after the other.
pub open spec fn pack_rest(s: Seq<u32>) -> Seq<u8>
    decreases s.len(),
{
    if s.len() == 0 {
        Seq::empty()
    } else {
        base128(s[0] as nat) + pack_rest(s.drop_first())
    }
}

/// What `pack_oid` returns for the sub-identifiers `s`: the leading byte for
/// the first two and the groups of the others. There is no such packing when
/// `s` has fewer than two entries, nor when the leading byte would pass 255.
pub open spec fn spec_pack(s: Seq<u32>) -> Result<Seq<u8>, SnmpError> {
    if s.len() < 2 {
        Err(SnmpError::ParsingError)
    } else if 40 * s[0] + s[1] > 255 {
        Err(SnmpError::EncodingTooLarge)
    } else {
        Ok(seq![(40 * s[0] + s[1]) as u8] + pack_rest(s.skip(2)))
    }
}

/// The sub-identifiers that the bytes `b` hold, read from the state of a
/// reader that has gathered `acc` from the groups of the sub-identifier it is
/// in; `pending` says that it is inside one. `None` when a sub-identifier
/// passes 32 bits or the bytes end inside one.
pub open spec fn unpack_rest(b: Seq<u8>, acc: nat, pending: bool) -> Option<Seq<u32>>
    decreases b.len(),
{
    if b.len() == 0 {
        if pending {
            None
        } else {
            Some(Seq::empty())
        }
    } else {
        let v = acc * 128 + b[0] % 128;
        if v > u32::MAX {
            None
        } else if b[0] >= 128 {
            unpack_rest(b.drop_first(), v as nat, true)
        } else {
            match unpack_rest(b.drop_first(), 0, false) {
                Some(rest) => Some(seq![v as u32] + rest),
                None => None,
            }
        }
    }
}

/// What `unpack_oid` returns for the bytes `b`: the quotient and the
/// remainder of the leading byte by 40, then the sub-identifiers that the
/// other bytes hold.
pub open spec fn spec_unpack(b: Seq<u8>) -> Result<Seq<u32>, SnmpError> {
    if b.len() == 0 {
        Err(SnmpError::ParsingError)
    } else {
        match unpack_rest(b.drop_first(), 0, false) {
            Some(rest) => Ok(seq![(b[0] / 40) as u32, (b[0] % 40) as u32] + rest),
            None => Err(SnmpError::ParsingError),
        }
    }
}

/// `done` in front of what is still to come.
pub open spec fn prepend(done: Seq<u32>, rest: Option<Seq<u32>>) -> Option<Seq<u32>> {
    match rest {
        Some(r) => Some(done + r),
        None => None,
    }
}

/// Every continuation group has its top bit set, and only zero has none.
pub proof fn lemma_base128_high_shape(v: nat)
    ensures
        base128_high(v).len() == 0 <==> v == 0,
        forall|i: int| 0 <= i < base128_high(v).len() ==> base128_high(v)[i] >= 128,
    decreases v,
{
    if v > 0 {
        lemma_base128_high_shape(v / 128);
    }
}

/// A sub-identifier takes one byte exactly when it is at most 127. Its last
/// byte has the top bit clear, and every byte in front of the last has it set.
pub proof fn lemma_base128_shape(v: nat)
    ensures
        base128(v).len() >= 1,
        base128(v).len() == 1 <==> v <= 127,
        base128(v).last() < 128,
        forall|i: int| 0 <= i < base128(v).len() - 1 ==> base128(v)[i] >= 128,
{
    lemma_base128_high_shape(v / 128);
}

/// Packing one more sub-identifier appends its bytes.
pub proof fn lemma_pack_rest_push(s: Seq<u32>, x: u32)
    ensures
        pack_rest(s.push(x)) == pack_rest(s) + base128(x as nat),
    decreases s.len(),
{
    if s.len() == 0 {
        assert(s.push(x).drop_first() =~= s);
    } else {
        lemma_pack_rest_push(s.drop_first(), x);
        assert(s.push(x).drop_first() =~= s.drop_first().push(x));
    }
}

/// A reader at the start of the continuation groups of `p` leaves them with
/// `p` gathered.
pub proof fn lemma_unpack_high(p: nat, t: Seq<u8>, pending: bool)
    requires
        p <= u32::MAX,
    ensures
        unpack_rest(base128_high(p) + t, 0, pending) == (if p == 0 {
            unpack_rest(t, 0, pending)
        } else {
            unpack_rest(t, p, true)
        }),
    decreases p,
{
    if p > 0 {
        let next = seq![(128 + p % 128) as u8] + t;
        lemma_unpack_high(p / 128, next, pending);
        assert(base128_high(p) + t =~= base128_high(p / 128) + next);
        assert(next.drop_first() =~= t);
    }
}

/// A reader between sub-identifiers reads `v` from its bytes and goes on
/// with what follows.
pub proof fn lemma_unpack_one(v: u32, rest: Seq<u8>)
    ensures
        unpack_rest(base128(v as nat) + rest, 0, false) == prepend(
            seq![v],
            unpack_rest(rest, 0, false),
        ),
{
    let low = (v as nat % 128) as u8;
    let next = seq![low] + rest;
    lemma_unpack_high(v as nat / 128, next, false);
    assert(base128(v as nat) + rest =~= base128_high(v as nat / 128) + next);
    assert(next.drop_first() =~= rest);
}

/// A reader between sub-identifiers reads `s` from the bytes of `s`.
pub proof fn lemma_unpack_pack_rest(s: Seq<u32>)
    ensures
        unpack_rest(pack_rest(s), 0, false) == Some(s),
    decreases s.len(),
{
    if s.len() > 0 {
        lemma_unpack_one(s[0], pack_rest(s.drop_first()));
        lemma_unpack_pack_rest(s.drop_first());
    }
}

/// Unpacking what was packed gives the sub-identifiers back, whenever the
/// second of them is below 40 and the leading byte holds the first two.
pub proof fn lemma_unpack_pack(s: Seq<u32>)
    requires
        s.len() >= 2,
        s[1] < 40,
        40 * s[0] + s[1] <= 255,
    ensures
        spec_pack(s) is Ok,
        spec_unpack(spec_pack(s)->Ok_0) == Ok::<Seq<u32>, SnmpError>(s),
{
    let lead = (40 * s[0] + s[1]) as u8;
    let b = seq![lead] + pack_rest(s.skip(2));
    assert(b.drop_first() =~= pack_rest(s.skip(2)));
    lemma_unpack_pack_rest(s.skip(2));
    assert(seq![(lead / 40) as u32, (lead % 40) as u32] + s.skip(2) =~= s);
}

/// Appends the continuation groups of `p`.
fn push_high(out: &mut Vec<u8>, p: u32)
    ensures
        final(out)@ == old(out)@ + base128_high(p as nat),
    decreases p,
{
    if p > 0 {
        push_high(out, p / 128);
        out.push((128 + p % 128) as u8);
    }
}

/// Appends the sub-identifier `v`.
pub fn push_base128(out: &mut Vec<u8>, v: u32)
    ensures
        final(out)@ == old(out)@ + base128(v as nat),
{
    push_high(out, v / 128);
    out.push((v % 128) as u8);
}

/// Packs the sub-identifiers of an object identifier into the content bytes
/// of its encoding. Fails with `ParsingError` when there are fewer than two,
/// and with `EncodingTooLarge` when the first two do not fit the leading byte.
pub fn pack_oid(subids: &[u32]) -> (r: Result<Vec<u8>, SnmpError>)
    ensures
        match r {
            Ok(bytes) => spec_pack(subids@) == Ok::<Seq<u8>, SnmpError>(bytes@),
            Err(e) => spec_pack(subids@) == Err::<Seq<u8>, SnmpError>(e),
        },
{
    if subids.len() < 2 {
        return Err(SnmpError::ParsingError);
    }
    let lead: u64 = 40 * (subids[0] as u64) + (subids[1] as u64);
    if lead > 255 {
        return Err(SnmpError::EncodingTooLarge);
    }
    let mut out: Vec<u8> = Vec::new();
    out.push(lead as u8);
    let mut i: usize = 2;
    while i < subids.len()
        invariant
            2 <= i <= subids@.len(),
            out@ == seq![lead as u8] + pack_rest(subids@.subrange(2, i as int)),
        decreases subids@.len() - i,
    {
        proof {
            lemma_pack_rest_push(subids@.subrange(2, i as int), subids@[i as int]);
            assert(subids@.subrange(2, i as int).push(subids@[i as int]) =~= subids@.subrange(
                2,
                i + 1,
            ));
        }
        push_base128(&mut out, subids[i]);
        i = i + 1;
    }
    Ok(out)
}

/// Unpacks the content bytes of an encoded object identifier. Fails with
/// `ParsingError` when there is no leading byte, when the bytes end inside a
/// sub-identifier, and when a sub-identifier passes 32 bits.
pub fn unpack_oid(bytes: &[u8]) -> (r: Result<Vec<u32>, SnmpError>)
    ensures
        match r {
            Ok(subids) => spec_unpack(bytes@) == Ok::<Seq<u32>, SnmpError>(subids@),
            Err(e) => spec_unpack(bytes@) == Err::<Seq<u32>, SnmpError>(e),
        },
{
    if bytes.len() == 0 {
        return Err(SnmpError::ParsingError);
    }
    let mut out: Vec<u32> = Vec::new();
    out.push((bytes[0] / 40) as u32);
    out.push((bytes[0] % 40) as u32);
    let ghost head = seq![(bytes@[0] / 40) as u32, (bytes@[0] % 40) as u32];
    let ghost body = bytes@.drop_first();
    let mut done: Ghost<Seq<u32>> = Ghost(Seq::empty());
    let mut acc: u32 = 0;
    let mut pending = false;
    let mut i: usize = 1;
    while i < bytes.len()
        invariant
            1 <= i <= bytes@.len(),
            body == bytes@.drop_first(),
            head == seq![(bytes@[0] / 40) as u32, (bytes@[0] % 40) as u32],
            out@ == head + done@,
            unpack_rest(body, 0, false) == prepend(
                done@,
                unpack_rest(bytes@.skip(i as int), acc as nat, pending),
            ),
        decreases bytes@.len() - i,
    {
        let byte = bytes[i];
        let v: u64 = (acc as u64) * 128 + ((byte % 128) as u64);
        assert(bytes@.skip(i as int).drop_first() =~= bytes@.skip(i + 1));
        if v > 0xffff_ffff {
            return Err(SnmpError::ParsingError);
        }
        if byte >= 128 {
            acc = v as u32;
            pending = true;
        } else {
            out.push(v as u32);
            proof {
                done@ = done@.push(v as u32);
            }
            acc = 0;
            pending = false;
        }
        i = i + 1;
    }
    if pending {
        return Err(SnmpError::ParsingError);
    }
    Ok(out)
}

} // verus!
