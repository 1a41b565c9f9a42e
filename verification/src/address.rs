//! Ethereum addresses.
//!
//! An address is the checksummed hexadecimal rendering of the low 20 bytes
//! of the Keccak-256 digest of the uncompressed public key (without its tag
//! byte).  The mixed-case checksum follows the convention of upper-casing a
//! hex letter exactly when the matching nibble of the digest of the
//! lower-case rendering is 8 or more.

use crate::crypto;
use crate::hexstr;
use vstd::prelude::*;

verus! {

/// The `i`-th nibble of a byte string, most significant nibble of each byte
/// first.
pub open spec fn nib_at(s: Seq<u8>, i: int) -> nat {
    if i % 2 == 0 {
        (s[i / 2] / 16) as nat
    } else {
        (s[i / 2] % 16) as nat
    }
}

/// One character of the checksummed rendering: nibble `n` of the address,
/// cased by nibble `h` of the checksum digest.
pub open spec fn checksum_char(n: nat, h: nat) -> char {
    if n >= 10 && h >= 8 {
        hexstr::hex_char_upper_of(n)
    } else {
        hexstr::hex_char_of(n)
    }
}

/// The lower-case ascii hexadecimal bytes of a byte string.
pub open spec fn hex_ascii_of(s: Seq<u8>) -> Seq<u8>
    decreases s.len(),
{
    if s.len() == 0 {
        Seq::empty()
    } else {
        hex_ascii_of(s.drop_last()) + seq![
            nibble_ascii((s.last() / 16) as nat),
            nibble_ascii((s.last() % 16) as nat),
        ]
    }
}

/// The ascii code of the lower-case hexadecimal digit for a nibble.
pub open spec fn nibble_ascii(n: nat) -> u8 {
    if n < 10 {
        (48 + n) as u8
    } else {
        (87 + n) as u8
    }
}

/// The checksummed address characters derived from 20 address bytes.
pub open spec fn checksum_chars(addr: Seq<u8>) -> Seq<char> {
    let h = crypto::keccak_of(hex_ascii_of(addr));
    Seq::new(40, |i: int| checksum_char(nib_at(addr, i), nib_at(h, i)))
}

/// The full address string, `0x`-prefixed, derived from an uncompressed
/// public key.
pub open spec fn eth_address_chars(pk: Seq<u8>) -> Seq<char> {
    seq!['0', 'x'] + checksum_chars(crypto::keccak_of(pk.skip(1)).subrange(12, 32))
}

/// Parses a `0x`-prefixed, 40-digit address string into its 20 bytes,
/// accepting either letter case.
///
/// Returns `None` exactly when the shape is wrong.
pub fn parse_address(s: &str) -> (r: Option<Vec<u8>>)
    ensures
        match r {
            Some(v) => s@.len() == 42 && s@[0] == '0' && s@[1] == 'x' && hexstr::all_hex_digits(
                s@.skip(2),
            ) && v@ == hexstr::bytes_of_hex(s@.skip(2)) && v@.len() == 20,
            None => s@.len() != 42 || s@[0] != '0' || s@[1] != 'x' || !hexstr::all_hex_digits(
                s@.skip(2),
            ),
        },
{
    let n = s.unicode_len();
    if n != 42 {
        return None;
    }
    if !(s.get_char(0) == '0') || !(s.get_char(1) == 'x') {
        return None;
    }
    let mut out: Vec<u8> = Vec::new();
    let mut i: usize = 2;
    while i < 42
        invariant
            2 <= i <= 42,
            i % 2 == 0,
            s@.len() == 42,
            hexstr::all_hex_digits(s@.subrange(2, i as int)),
            out@ == hexstr::bytes_of_hex(s@.subrange(2, i as int)),
            out@.len() == (i - 2) / 2,
        decreases 42 - i,
    {
        let hi = match hexstr::hex_digit_value(s.get_char(i)) {
            Some(d) => d,
            None => {
                proof {
                    assert(s@.skip(2)[i - 2] == s@[i as int]);
                }
                return None;
            },
        };
        let lo = match hexstr::hex_digit_value(s.get_char(i + 1)) {
            Some(d) => d,
            None => {
                proof {
                    assert(s@.skip(2)[i - 1] == s@[i + 1 as int]);
                }
                return None;
            },
        };
        out.push(hi * 16 + lo);
        proof {
            assert(s@.subrange(2, i + 2 as int).take(i - 2 as int) =~= s@.subrange(2, i as int));
            assert(out@ =~= hexstr::bytes_of_hex(s@.subrange(2, i + 2 as int)));
        }
        i = i + 2;
    }
    proof {
        assert(s@.subrange(2, 42) =~= s@.skip(2));
    }
    Some(out)
}

/// Renders a byte string as lower-case ascii hexadecimal bytes.
fn hex_lower_ascii(v: &Vec<u8>) -> (r: Vec<u8>)
    ensures
        r@ == hex_ascii_of(v@),
{
    let mut out: Vec<u8> = Vec::new();
    let mut i: usize = 0;
    while i < v.len()
        invariant
            i <= v.len(),
            out@ == hex_ascii_of(v@.take(i as int)),
        decreases v.len() - i,
    {
        let b = v[i];
        let hi = b / 16;
        let lo = b % 16;
        out.push(if hi < 10 {
            48 + hi
        } else {
            87 + hi
        });
        out.push(if lo < 10 {
            48 + lo
        } else {
            87 + lo
        });
        proof {
            assert(v@.take(i + 1 as int).drop_last() =~= v@.take(i as int));
            assert(v@.take(i + 1 as int).last() == v@[i as int]);
            assert(out@ =~= hex_ascii_of(v@.take(i + 1 as int)));
        }
        i = i + 1;
    }
    proof {
        assert(v@.take(v@.len() as int) =~= v@);
    }
    out
}

/// Derives the checksummed address string from an uncompressed public key.
pub fn eth_address_of_public_key(pk: &Vec<u8>) -> (r: String)
    requires
        pk@.len() == 65,
    ensures
        r@ == eth_address_chars(pk@),
{
    let mut body: Vec<u8> = Vec::new();
    let mut i: usize = 1;
    while i < 65
        invariant
            1 <= i <= 65,
            pk@.len() == 65,
            body@ == pk@.subrange(1, i as int),
        decreases 65 - i,
    {
        body.push(pk[i]);
        proof {
            assert(pk@.subrange(1, i + 1 as int) =~= pk@.subrange(1, i as int).push(
                pk@[i as int],
            ));
        }
        i = i + 1;
    }
    proof {
        assert(body@ =~= pk@.skip(1));
    }
    let digest = crypto::keccak256(&body);
    let mut addr: Vec<u8> = Vec::new();
    let mut j: usize = 12;
    while j < 32
        invariant
            12 <= j <= 32,
            digest@.len() == 32,
            addr@ == digest@.subrange(12, j as int),
        decreases 32 - j,
    {
        addr.push(digest[j]);
        proof {
            assert(digest@.subrange(12, j + 1 as int) =~= digest@.subrange(12, j as int).push(
                digest@[j as int],
            ));
        }
        j = j + 1;
    }
    let ascii = hex_lower_ascii(&addr);
    let h = crypto::keccak256(&ascii);
    let ghost hseq = crypto::keccak_of(hex_ascii_of(addr@));
    let mut out = String::from_str("0x");
    proof {
        reveal_strlit("0x");
        assert(out@ =~= seq!['0', 'x']);
    }
    let mut k: usize = 0;
    while k < 40
        invariant
            k <= 40,
            addr@.len() == 20,
            h@ == hseq,
            h@.len() == 32,
            out@ == seq!['0', 'x'] + Seq::new(
                k as nat,
                |i: int| checksum_char(nib_at(addr@, i), nib_at(hseq, i)),
            ),
        decreases 40 - k,
    {
        let b = addr[k / 2];
        let n: u8 = if k % 2 == 0 {
            b / 16
        } else {
            b % 16
        };
        let hb = h[k / 2];
        let hn: u8 = if k % 2 == 0 {
            hb / 16
        } else {
            hb % 16
        };
        if n >= 10 && hn >= 8 {
            out.append(hexstr::nibble_str_upper(n));
        } else {
            out.append(hexstr::nibble_str(n));
        }
        proof {
            assert(n as nat == nib_at(addr@, k as int));
            assert(hn as nat == nib_at(hseq, k as int));
            assert(out@ =~= seq!['0', 'x'] + Seq::new(
                (k + 1) as nat,
                |i: int| checksum_char(nib_at(addr@, i), nib_at(hseq, i)),
            ));
        }
        k = k + 1;
    }
    proof {
        assert(addr@ =~= crypto::keccak_of(pk@.skip(1)).subrange(12, 32));
        assert(out@ =~= eth_address_chars(pk@));
    }
    out
}

} // verus!
