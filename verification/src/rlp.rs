//! Recursive-length-prefix (RLP) encoding.
//!
//! The signing payload and broadcast envelope of a type-2 transaction are
//! RLP items: byte strings with a length header and lists over the
//! concatenation of their members' encodings.  Integers travel as their
//! minimal big-endian bytes.

use crate::amount::{amount_bytes, be8, Amount};
use vstd::prelude::*;

verus! {

/// The byte string without its leading zero bytes.
pub open spec fn trim_zeros(s: Seq<u8>) -> Seq<u8>
    decreases s.len(),
{
    if s.len() > 0 && s[0] == 0 {
        trim_zeros(s.drop_first())
    } else {
        s
    }
}

/// The minimal big-endian bytes of an integer; empty for zero.
pub open spec fn be_min(v: nat) -> Seq<u8>
    decreases v,
{
    if v == 0 {
        Seq::empty()
    } else {
        be_min(v / 256).push((v % 256) as u8)
    }
}

/// The RLP encoding of a byte string.
pub open spec fn rlp_str(p: Seq<u8>) -> Seq<u8> {
    if p.len() == 1 && p[0] < 0x80 {
        p
    } else if p.len() < 56 {
        seq![(0x80 + p.len()) as u8] + p
    } else {
        seq![(0xb7 + be_min(p.len() as nat).len()) as u8] + be_min(p.len() as nat) + p
    }
}

/// The RLP encoding of a list whose members' encodings concatenate to
/// `payload`.
pub open spec fn rlp_list(payload: Seq<u8>) -> Seq<u8> {
    if payload.len() < 56 {
        seq![(0xc0 + payload.len()) as u8] + payload
    } else {
        seq![(0xf7 + be_min(payload.len() as nat).len()) as u8] + be_min(payload.len() as nat)
            + payload
    }
}

/// The RLP encoding of a 64-bit integer.
pub open spec fn rlp_u64(v: u64) -> Seq<u8> {
    rlp_str(trim_zeros(be8(v)))
}

/// The RLP encoding of an amount.
pub open spec fn rlp_amount(a: Amount) -> Seq<u8> {
    rlp_str(trim_zeros(amount_bytes(a)))
}

/// A trimmed byte string is the suffix from the first nonzero byte on.
proof fn lemma_trim_skip(s: Seq<u8>, i: int)
    requires
        0 <= i <= s.len(),
        forall|j: int| 0 <= j < i ==> s[j] == 0,
        i == s.len() || s[i] != 0,
    ensures
        trim_zeros(s) == s.skip(i),
    decreases i,
{
    if i == 0 {
        assert(s.skip(0) =~= s);
    } else {
        assert(s[0] == 0);
        lemma_trim_skip(s.drop_first(), i - 1);
        assert(s.drop_first().skip(i - 1) =~= s.skip(i));
    }
}

/// Copies a byte string without its leading zero bytes.
pub fn trim_leading_zeros(v: &Vec<u8>) -> (r: Vec<u8>)
    ensures
        r@ == trim_zeros(v@),
{
    let mut i: usize = 0;
    while i < v.len() && v[i] == 0
        invariant
            i <= v@.len(),
            forall|j: int| 0 <= j < i ==> v@[j] == 0,
        decreases v@.len() - i,
    {
        i = i + 1;
    }
    proof {
        lemma_trim_skip(v@, i as int);
    }
    let mut out: Vec<u8> = Vec::new();
    let mut k: usize = i;
    while k < v.len()
        invariant
            i <= k <= v@.len(),
            out@ == v@.subrange(i as int, k as int),
        decreases v@.len() - k,
    {
        out.push(v[k]);
        proof {
            assert(v@.subrange(i as int, k + 1 as int) =~= v@.subrange(i as int, k as int).push(
                v@[k as int],
            ));
        }
        k = k + 1;
    }
    proof {
        assert(v@.subrange(i as int, v@.len() as int) =~= v@.skip(i as int));
    }
    out
}

/// The minimal big-endian bytes of a 64-bit integer.
pub fn u64_be_min(v: u64) -> (r: Vec<u8>)
    ensures
        r@ == be_min(v as nat),
    decreases v,
{
    if v == 0 {
        Vec::new()
    } else {
        let mut r = u64_be_min(v / 256);
        r.push((v % 256) as u8);
        r
    }
}

/// Appends the RLP encoding of a byte string.
pub fn append_rlp_str(out: &mut Vec<u8>, p: &Vec<u8>)
    ensures
        final(out)@ == old(out)@ + rlp_str(p@),
{
    if p.len() == 1 && p[0] < 0x80 {
        out.push(p[0]);
        proof {
            assert(out@ =~= old(out)@ + rlp_str(p@));
        }
        return ;
    }
    if p.len() < 56 {
        out.push(0x80 + p.len() as u8);
    } else {
        let lb = u64_be_min(p.len() as u64);
        proof {
            lemma_be_min_len_le_8(p@.len() as nat);
        }
        out.push(0xb7 + lb.len() as u8);
        let mut i: usize = 0;
        while i < lb.len()
            invariant
                i <= lb@.len(),
                out@ == old(out)@ + seq![(0xb7 + lb@.len()) as u8] + lb@.take(i as int),
            decreases lb@.len() - i,
        {
            out.push(lb[i]);
            proof {
                assert(lb@.take(i + 1 as int) =~= lb@.take(i as int).push(lb@[i as int]));
                assert(out@ =~= old(out)@ + seq![(0xb7 + lb@.len()) as u8] + lb@.take(
                    i + 1 as int,
                ));
            }
            i = i + 1;
        }
        proof {
            assert(lb@.take(lb@.len() as int) =~= lb@);
        }
    }
    let mut j: usize = 0;
    let ghost head = out@;
    while j < p.len()
        invariant
            j <= p@.len(),
            out@ == head + p@.take(j as int),
        decreases p@.len() - j,
    {
        out.push(p[j]);
        proof {
            assert(p@.take(j + 1 as int) =~= p@.take(j as int).push(p@[j as int]));
            assert(out@ =~= head + p@.take(j + 1 as int));
        }
        j = j + 1;
    }
    proof {
        assert(p@.take(p@.len() as int) =~= p@);
        assert(out@ =~= old(out)@ + rlp_str(p@));
    }
}

/// 256 to the `k`-th power.
spec fn p256(k: nat) -> nat
    decreases k,
{
    if k == 0 {
        1
    } else {
        256 * p256((k - 1) as nat)
    }
}

/// The minimal big-endian form of a 64-bit value is at most eight bytes.
proof fn lemma_be_min_len_le_8(v: nat)
    requires
        v < 0x1_0000_0000_0000_0000,
    ensures
        be_min(v).len() <= 8,
{
    assert(p256(0) == 1);
    assert(p256(1) == 256);
    assert(p256(2) == 0x1_0000);
    assert(p256(3) == 0x100_0000);
    assert(p256(4) == 0x1_0000_0000);
    assert(p256(5) == 0x100_0000_0000);
    assert(p256(6) == 0x1_0000_0000_0000);
    assert(p256(7) == 0x100_0000_0000_0000);
    assert(p256(8) == 0x1_0000_0000_0000_0000);
    lemma_be_min_len(v, 8);
}

/// The minimal big-endian form of a value below 256^k fits in k bytes.
proof fn lemma_be_min_len(v: nat, k: nat)
    requires
        v < p256(k),
    ensures
        be_min(v).len() <= k,
    decreases k,
{
    if v > 0 {
        if k == 0 {
            assert(p256(0) == 1);
        } else {
            lemma_p256_pos((k - 1) as nat);
            assert(v / 256 < p256((k - 1) as nat)) by (nonlinear_arith)
                requires
                    v < 256 * p256((k - 1) as nat),
                    p256((k - 1) as nat) > 0,
            ;
            lemma_be_min_len(v / 256, (k - 1) as nat);
        }
    }
}

/// Powers of 256 are positive.
proof fn lemma_p256_pos(k: nat)
    ensures
        p256(k) > 0,
    decreases k,
{
    if k > 0 {
        lemma_p256_pos((k - 1) as nat);
    }
}

/// Wraps a concatenated member encoding as an RLP list.
pub fn rlp_list_bytes(payload: &Vec<u8>) -> (r: Vec<u8>)
    ensures
        r@ == rlp_list(payload@),
{
    let mut out: Vec<u8> = Vec::new();
    if payload.len() < 56 {
        out.push(0xc0 + payload.len() as u8);
    } else {
        let lb = u64_be_min(payload.len() as u64);
        proof {
            lemma_be_min_len_le_8(payload@.len() as nat);
        }
        out.push(0xf7 + lb.len() as u8);
        let mut i: usize = 0;
        while i < lb.len()
            invariant
                i <= lb@.len(),
                out@ == seq![(0xf7 + lb@.len()) as u8] + lb@.take(i as int),
            decreases lb@.len() - i,
        {
            out.push(lb[i]);
            proof {
                assert(lb@.take(i + 1 as int) =~= lb@.take(i as int).push(lb@[i as int]));
                assert(out@ =~= seq![(0xf7 + lb@.len()) as u8] + lb@.take(i + 1 as int));
            }
            i = i + 1;
        }
        proof {
            assert(lb@.take(lb@.len() as int) =~= lb@);
        }
    }
    let ghost head = out@;
    let mut j: usize = 0;
    while j < payload.len()
        invariant
            j <= payload@.len(),
            out@ == head + payload@.take(j as int),
        decreases payload@.len() - j,
    {
        out.push(payload[j]);
        proof {
            assert(payload@.take(j + 1 as int) =~= payload@.take(j as int).push(
                payload@[j as int],
            ));
            assert(out@ =~= head + payload@.take(j + 1 as int));
        }
        j = j + 1;
    }
    proof {
        assert(payload@.take(payload@.len() as int) =~= payload@);
        assert(out@ =~= rlp_list(payload@));
    }
    out
}

/// The RLP encoding of a 128-bit integer.
pub open spec fn rlp_u128(v: u128) -> Seq<u8> {
    rlp_str(trim_zeros(crate::amount::be16(v)))
}

/// Appends a byte string as it stands.
pub fn append_bytes(out: &mut Vec<u8>, v: &Vec<u8>)
    ensures
        final(out)@ == old(out)@ + v@,
{
    let mut j: usize = 0;
    while j < v.len()
        invariant
            j <= v@.len(),
            out@ == old(out)@ + v@.take(j as int),
        decreases v@.len() - j,
    {
        out.push(v[j]);
        proof {
            assert(v@.take(j + 1 as int) =~= v@.take(j as int).push(v@[j as int]));
            assert(out@ =~= old(out)@ + v@.take(j + 1 as int));
        }
        j = j + 1;
    }
    proof {
        assert(v@.take(v@.len() as int) =~= v@);
    }
}

/// Appends the RLP encoding of a 128-bit integer.
pub fn append_rlp_u128(out: &mut Vec<u8>, v: u128)
    ensures
        final(out)@ == old(out)@ + rlp_u128(v),
{
    let mut bytes: Vec<u8> = Vec::new();
    crate::amount::append_be16(&mut bytes, v);
    let t = trim_leading_zeros(&bytes);
    append_rlp_str(out, &t);
}

/// Appends the RLP encoding of a 64-bit integer.
pub fn append_rlp_u64(out: &mut Vec<u8>, v: u64)
    ensures
        final(out)@ == old(out)@ + rlp_u64(v),
{
    let mut bytes: Vec<u8> = Vec::new();
    crate::amount::append_be8(&mut bytes, v);
    let t = trim_leading_zeros(&bytes);
    append_rlp_str(out, &t);
}

/// Appends the RLP encoding of an amount.
pub fn append_rlp_amount(out: &mut Vec<u8>, a: &Amount)
    ensures
        final(out)@ == old(out)@ + rlp_amount(*a),
{
    let bytes = a.to_be_bytes();
    let t = trim_leading_zeros(&bytes);
    append_rlp_str(out, &t);
}

} // verus!
