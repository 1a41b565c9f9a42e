//! 256-bit unsigned amounts.
//!
//! All monetary values of the engine are 256-bit unsigned integers, carried
//! as four 64-bit limbs, least significant first.  The mathematical value of
//! an amount is given by [`Amount::as_nat`]; every arithmetic operation is
//! specified against it.

use crate::hexstr;
use vstd::prelude::*;

verus! {

/// One 256-bit unsigned amount.  `w0` is the least significant limb.
#[derive(Clone, Copy, Debug, PartialEq, Eq, Structural)]
pub struct Amount {
    pub w0: u64,
    pub w1: u64,
    pub w2: u64,
    pub w3: u64,
}

/// 2^64.
pub open spec fn pow64() -> nat {
    0x1_0000_0000_0000_0000nat
}

/// 2^128.
pub open spec fn pow128() -> nat {
    0x1_0000_0000_0000_0000_0000_0000_0000_0000nat
}

/// 2^192.
pub open spec fn pow192() -> nat {
    0x1_0000_0000_0000_0000_0000_0000_0000_0000_0000_0000_0000_0000nat
}

/// 2^256, one past the largest representable amount.
pub open spec fn pow256() -> nat {
    0x1_0000_0000_0000_0000_0000_0000_0000_0000_0000_0000_0000_0000_0000_0000_0000_0000nat
}

/// The eight bytes of a 64-bit limb, most significant first.
pub open spec fn be8(w: u64) -> Seq<u8> {
    seq![
        ((w / 0x100_0000_0000_0000u64) % 256) as u8,
        ((w / 0x1_0000_0000_0000u64) % 256) as u8,
        ((w / 0x100_0000_0000u64) % 256) as u8,
        ((w / 0x1_0000_0000u64) % 256) as u8,
        ((w / 0x100_0000u64) % 256) as u8,
        ((w / 0x1_0000u64) % 256) as u8,
        ((w / 0x100u64) % 256) as u8,
        (w % 256) as u8,
    ]
}

/// The 32 bytes of an amount, most significant first.
pub open spec fn amount_bytes(a: Amount) -> Seq<u8> {
    be8(a.w3) + be8(a.w2) + be8(a.w1) + be8(a.w0)
}

/// The sixteen bytes of a 128-bit value, most significant first.
pub open spec fn be16(w: u128) -> Seq<u8> {
    be8((w / 0x1_0000_0000_0000_0000u128) as u64) + be8((w % 0x1_0000_0000_0000_0000u128) as u64)
}

/// Appends the sixteen big-endian bytes of `w` to `out`.
pub(crate) fn append_be16(out: &mut Vec<u8>, w: u128)
    ensures
        final(out)@ == old(out)@ + be16(w),
{
    append_be8(out, (w / 0x1_0000_0000_0000_0000u128) as u64);
    append_be8(out, (w % 0x1_0000_0000_0000_0000u128) as u64);
    proof {
        assert(out@ =~= old(out)@ + be16(w));
    }
}

/// Appends the eight big-endian bytes of `w` to `out`.
pub(crate) fn append_be8(out: &mut Vec<u8>, w: u64)
    ensures
        final(out)@ == old(out)@ + be8(w),
{
    out.push(((w / 0x100_0000_0000_0000u64) % 256) as u8);
    out.push(((w / 0x1_0000_0000_0000u64) % 256) as u8);
    out.push(((w / 0x100_0000_0000u64) % 256) as u8);
    out.push(((w / 0x1_0000_0000u64) % 256) as u8);
    out.push(((w / 0x100_0000u64) % 256) as u8);
    out.push(((w / 0x1_0000u64) % 256) as u8);
    out.push(((w / 0x100u64) % 256) as u8);
    out.push((w % 256) as u8);
    proof {
        assert(out@ =~= old(out)@ + be8(w));
    }
}

/// Multiplies a limb by 16 and adds a small carry; returns the low limb and
/// the outgoing carry.
fn mul16_limb(x: u64, cin: u64) -> (r: (u64, u64))
    requires
        cin < 16,
    ensures
        r.0 as nat + r.1 as nat * pow64() == x as nat * 16 + cin,
        r.1 < 16,
{
    let hi = x / 0x1000_0000_0000_0000u64;
    let lo = x % 0x1000_0000_0000_0000u64;
    (lo * 16 + cin, hi)
}

/// Adds two limbs and a carry; returns the low limb and the outgoing carry.
fn add_limb(x: u64, y: u64, c: bool) -> (r: (u64, bool))
    ensures
        r.0 as nat + (if r.1 {
            pow64()
        } else {
            0nat
        }) == x as nat + y as nat + (if c {
            1nat
        } else {
            0nat
        }),
{
    let z: u128 = x as u128 + y as u128 + (if c {
        1u128
    } else {
        0u128
    });
    if z >= 0x1_0000_0000_0000_0000u128 {
        ((z - 0x1_0000_0000_0000_0000u128) as u64, true)
    } else {
        (z as u64, false)
    }
}

/// Subtracts a limb and a borrow from a limb; returns the low limb and the
/// outgoing borrow.
fn sub_limb(x: u64, y: u64, b: bool) -> (r: (u64, bool))
    ensures
        r.0 as int - (if r.1 {
            pow64() as int
        } else {
            0int
        }) == x as int - y as int - (if b {
            1int
        } else {
            0int
        }),
{
    let yb: u128 = y as u128 + (if b {
        1u128
    } else {
        0u128
    });
    if x as u128 >= yb {
        ((x as u128 - yb) as u64, false)
    } else {
        ((0x1_0000_0000_0000_0000u128 + x as u128 - yb) as u64, true)
    }
}

impl Amount {
    /// The mathematical value of this amount.
    pub open spec fn as_nat(self) -> nat {
        self.w0 as nat + self.w1 as nat * pow64() + self.w2 as nat * pow128() + self.w3 as nat
            * pow192()
    }

    /// The zero amount.
    pub fn zero() -> (r: Amount)
        ensures
            r.as_nat() == 0,
    {
        Amount { w0: 0, w1: 0, w2: 0, w3: 0 }
    }

    /// Whether this amount is zero.
    pub fn is_zero(&self) -> (r: bool)
        ensures
            r == (self.as_nat() == 0),
    {
        self.w0 == 0 && self.w1 == 0 && self.w2 == 0 && self.w3 == 0
    }

    /// The sum of two amounts, or `None` if it does not fit in 256 bits.
    pub fn checked_add(self, other: Amount) -> (r: Option<Amount>)
        ensures
            match r {
                Some(s) => s.as_nat() == self.as_nat() + other.as_nat(),
                None => self.as_nat() + other.as_nat() >= pow256(),
            },
    {
        let (s0, c0) = add_limb(self.w0, other.w0, false);
        let (s1, c1) = add_limb(self.w1, other.w1, c0);
        let (s2, c2) = add_limb(self.w2, other.w2, c1);
        let (s3, c3) = add_limb(self.w3, other.w3, c2);
        proof {
            let c0n: nat = if c0 {
                1nat
            } else {
                0nat
            };
            let c1n: nat = if c1 {
                1nat
            } else {
                0nat
            };
            let c2n: nat = if c2 {
                1nat
            } else {
                0nat
            };
            let c3n: nat = if c3 {
                1nat
            } else {
                0nat
            };
            assert(s1 as nat * pow64() + c1n * pow128() == self.w1 as nat * pow64()
                + other.w1 as nat * pow64() + c0n * pow64()) by (nonlinear_arith)
                requires
                    s1 as nat + c1n * pow64() == self.w1 as nat + other.w1 as nat + c0n,
            ;
            assert(s2 as nat * pow128() + c2n * pow192() == self.w2 as nat * pow128()
                + other.w2 as nat * pow128() + c1n * pow128()) by (nonlinear_arith)
                requires
                    s2 as nat + c2n * pow64() == self.w2 as nat + other.w2 as nat + c1n,
            ;
            assert(s3 as nat * pow192() + c3n * pow256() == self.w3 as nat * pow192()
                + other.w3 as nat * pow192() + c2n * pow192()) by (nonlinear_arith)
                requires
                    s3 as nat + c3n * pow64() == self.w3 as nat + other.w3 as nat + c2n,
            ;
            assert(s0 as nat + s1 as nat * pow64() + s2 as nat * pow128() + s3 as nat * pow192()
                + c3n * pow256() == self.as_nat() + other.as_nat());
        }
        if c3 {
            None
        } else {
            Some(Amount { w0: s0, w1: s1, w2: s2, w3: s3 })
        }
    }

    /// The difference of two amounts, or `None` if `other` exceeds `self`.
    pub fn checked_sub(self, other: Amount) -> (r: Option<Amount>)
        ensures
            match r {
                Some(d) => self.as_nat() >= other.as_nat() && d.as_nat() == self.as_nat()
                    - other.as_nat(),
                None => self.as_nat() < other.as_nat(),
            },
    {
        let (d0, b0) = sub_limb(self.w0, other.w0, false);
        let (d1, b1) = sub_limb(self.w1, other.w1, b0);
        let (d2, b2) = sub_limb(self.w2, other.w2, b1);
        let (d3, b3) = sub_limb(self.w3, other.w3, b2);
        proof {
            let b0n: int = if b0 {
                1int
            } else {
                0int
            };
            let b1n: int = if b1 {
                1int
            } else {
                0int
            };
            let b2n: int = if b2 {
                1int
            } else {
                0int
            };
            let b3n: int = if b3 {
                1int
            } else {
                0int
            };
            assert(d1 as int * pow64() - b1n * pow128() == self.w1 as int * pow64()
                - other.w1 as int * pow64() - b0n * pow64()) by (nonlinear_arith)
                requires
                    d1 as int - b1n * pow64() == self.w1 as int - other.w1 as int - b0n,
            ;
            assert(d2 as int * pow128() - b2n * pow192() == self.w2 as int * pow128()
                - other.w2 as int * pow128() - b1n * pow128()) by (nonlinear_arith)
                requires
                    d2 as int - b2n * pow64() == self.w2 as int - other.w2 as int - b1n,
            ;
            assert(d3 as int * pow192() - b3n * pow256() == self.w3 as int * pow192()
                - other.w3 as int * pow192() - b2n * pow192()) by (nonlinear_arith)
                requires
                    d3 as int - b3n * pow64() == self.w3 as int - other.w3 as int - b2n,
            ;
            assert(d0 as int + d1 as int * pow64() + d2 as int * pow128() + d3 as int * pow192()
                - b3n * pow256() == self.as_nat() - other.as_nat());
        }
        if b3 {
            None
        } else {
            Some(Amount { w0: d0, w1: d1, w2: d2, w3: d3 })
        }
    }

    /// Multiplies this amount by 16 and adds a digit, or `None` on overflow.
    fn mul16_add(self, d: u8) -> (r: Option<Amount>)
        requires
            d < 16,
        ensures
            match r {
                Some(a) => a.as_nat() == self.as_nat() * 16 + d,
                None => self.as_nat() * 16 + d >= pow256(),
            },
    {
        let (m0, c0) = mul16_limb(self.w0, d as u64);
        let (m1, c1) = mul16_limb(self.w1, c0);
        let (m2, c2) = mul16_limb(self.w2, c1);
        let (m3, c3) = mul16_limb(self.w3, c2);
        proof {
            assert(m1 as nat * pow64() + c1 as nat * pow128() == self.w1 as nat * 16 * pow64()
                + c0 as nat * pow64()) by (nonlinear_arith)
                requires
                    m1 as nat + c1 as nat * pow64() == self.w1 as nat * 16 + c0,
            ;
            assert(m2 as nat * pow128() + c2 as nat * pow192() == self.w2 as nat * 16 * pow128()
                + c1 as nat * pow128()) by (nonlinear_arith)
                requires
                    m2 as nat + c2 as nat * pow64() == self.w2 as nat * 16 + c1,
            ;
            assert(m3 as nat * pow192() + c3 as nat * pow256() == self.w3 as nat * 16 * pow192()
                + c2 as nat * pow192()) by (nonlinear_arith)
                requires
                    m3 as nat + c3 as nat * pow64() == self.w3 as nat * 16 + c2,
            ;
            assert(m0 as nat + m1 as nat * pow64() + m2 as nat * pow128() + m3 as nat * pow192()
                + c3 as nat * pow256() == self.as_nat() * 16 + d);
        }
        if c3 > 0 {
            None
        } else {
            Some(Amount { w0: m0, w1: m1, w2: m2, w3: m3 })
        }
    }

    /// Parses a string of hexadecimal digits (no `0x` prefix) as an amount.
    ///
    /// Returns `None` exactly when the string is empty, holds a character
    /// that is no hexadecimal digit, or denotes a value of 256 bits or more.
    pub fn from_hex(s: &str) -> (r: Option<Amount>)
        ensures
            match r {
                Some(a) => s@.len() > 0 && hexstr::all_hex_digits(s@) && hexstr::hex_val(s@)
                    < pow256() && a.as_nat() == hexstr::hex_val(s@),
                None => s@.len() == 0 || !hexstr::all_hex_digits(s@) || hexstr::hex_val(s@)
                    >= pow256(),
            },
    {
        let n = s.unicode_len();
        if n == 0 {
            return None;
        }
        let mut acc = Amount::zero();
        let mut i: usize = 0;
        while i < n
            invariant
                i <= n,
                n == s@.len(),
                hexstr::all_hex_digits(s@.take(i as int)),
                acc.as_nat() == hexstr::hex_val(s@.take(i as int)),
                acc.as_nat() < pow256(),
            decreases n - i,
        {
            let c = s.get_char(i);
            let d = match hexstr::hex_digit_value(c) {
                Some(d) => d,
                None => {
                    proof {
                        assert(!hexstr::is_hex_digit(s@[i as int]));
                    }
                    return None;
                },
            };
            proof {
                assert(s@.take(i + 1 as int).drop_last() =~= s@.take(i as int));
                assert(s@.take(i + 1 as int).last() == s@[i as int]);
            }
            acc = match acc.mul16_add(d) {
                Some(a) => a,
                None => {
                    proof {
                        lemma_hex_prefix_le(s@, (i + 1) as int);
                    }
                    return None;
                },
            };
            i = i + 1;
        }
        proof {
            assert(s@.take(n as int) =~= s@);
        }
        Some(acc)
    }

    /// The 32 big-endian bytes of this amount.
    pub fn to_be_bytes(&self) -> (r: Vec<u8>)
        ensures
            r@ == amount_bytes(*self),
    {
        let mut out: Vec<u8> = Vec::new();
        append_be8(&mut out, self.w3);
        append_be8(&mut out, self.w2);
        append_be8(&mut out, self.w1);
        append_be8(&mut out, self.w0);
        proof {
            assert(out@ =~= amount_bytes(*self));
        }
        out
    }

    /// The full-width, 64-digit lower-case hexadecimal rendering.
    pub fn to_hex(&self) -> (r: String)
        ensures
            r@ == hexstr::hex_of_bytes(amount_bytes(*self)),
    {
        let bytes = self.to_be_bytes();
        hexstr::encode_bytes(&bytes)
    }

    /// Whether `self` is strictly below `other`.
    pub fn lt(&self, other: &Amount) -> (r: bool)
        ensures
            r == (self.as_nat() < other.as_nat()),
    {
        if self.w3 != other.w3 {
            self.w3 < other.w3
        } else if self.w2 != other.w2 {
            self.w2 < other.w2
        } else if self.w1 != other.w1 {
            self.w1 < other.w1
        } else {
            self.w0 < other.w0
        }
    }
}

/// The value of a prefix of a hexadecimal string never exceeds the value of
/// the whole.
proof fn lemma_hex_prefix_le(s: Seq<char>, i: int)
    requires
        0 <= i <= s.len(),
    ensures
        hexstr::hex_val(s.take(i)) <= hexstr::hex_val(s),
    decreases s.len(),
{
    if i < s.len() {
        assert(s.drop_last().take(i) =~= s.take(i));
        lemma_hex_prefix_le(s.drop_last(), i);
        assert(hexstr::hex_val(s.drop_last()) * 16 <= hexstr::hex_val(s.drop_last()) * 16);
    } else {
        assert(s.take(i) =~= s);
    }
}

} // verus!
