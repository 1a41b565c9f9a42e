//! Hexadecimal text.
//!
//! Amounts, identifiers and addresses travel as hex strings.  This module
//! gives the character-level specification of hexadecimal and verified
//! encoders and decoders over it.

use vstd::prelude::*;

verus! {

/// Whether `c` is a hexadecimal digit (either case).
pub open spec fn is_hex_digit(c: char) -> bool {
    (48 <= c as u32 && c as u32 <= 57) || (97 <= c as u32 && c as u32 <= 102) || (65 <= c as u32
        && c as u32 <= 70)
}

/// The value of a hexadecimal digit; meaningful only when `is_hex_digit(c)`.
pub open spec fn hex_digit_val(c: char) -> nat {
    if 48 <= c as u32 && c as u32 <= 57 {
        (c as u32 - 48) as nat
    } else if 97 <= c as u32 && c as u32 <= 102 {
        (c as u32 - 87) as nat
    } else if 65 <= c as u32 && c as u32 <= 70 {
        (c as u32 - 55) as nat
    } else {
        0
    }
}

/// Whether every character of `s` is a hexadecimal digit.
pub open spec fn all_hex_digits(s: Seq<char>) -> bool {
    forall|i: int| 0 <= i < s.len() ==> is_hex_digit(#[trigger] s[i])
}

/// The value of a big-endian string of hexadecimal digits.
pub open spec fn hex_val(s: Seq<char>) -> nat
    decreases s.len(),
{
    if s.len() == 0 {
        0
    } else {
        hex_val(s.drop_last()) * 16 + hex_digit_val(s.last())
    }
}

/// The lower-case hexadecimal digit for a nibble; meaningful only for
/// `n < 16`.
pub open spec fn hex_char_of(n: nat) -> char {
    if n == 0 {
        '0'
    } else if n == 1 {
        '1'
    } else if n == 2 {
        '2'
    } else if n == 3 {
        '3'
    } else if n == 4 {
        '4'
    } else if n == 5 {
        '5'
    } else if n == 6 {
        '6'
    } else if n == 7 {
        '7'
    } else if n == 8 {
        '8'
    } else if n == 9 {
        '9'
    } else if n == 10 {
        'a'
    } else if n == 11 {
        'b'
    } else if n == 12 {
        'c'
    } else if n == 13 {
        'd'
    } else if n == 14 {
        'e'
    } else {
        'f'
    }
}

/// The upper-case hexadecimal digit for a nibble; meaningful only for
/// `n < 16`.
pub open spec fn hex_char_upper_of(n: nat) -> char {
    if n < 10 {
        hex_char_of(n)
    } else if n == 10 {
        'A'
    } else if n == 11 {
        'B'
    } else if n == 12 {
        'C'
    } else if n == 13 {
        'D'
    } else if n == 14 {
        'E'
    } else {
        'F'
    }
}

/// The lower-case hexadecimal rendering of a byte string: two digits per
/// byte, most significant nibble first.
pub open spec fn hex_of_bytes(s: Seq<u8>) -> Seq<char>
    decreases s.len(),
{
    if s.len() == 0 {
        Seq::empty()
    } else {
        hex_of_bytes(s.drop_last()) + seq![
            hex_char_of((s.last() / 16) as nat),
            hex_char_of((s.last() % 16) as nat),
        ]
    }
}

/// Whether `s` is the hexadecimal rendering of a byte string: even length,
/// digits only.
pub open spec fn bytes_of_hex_ok(s: Seq<char>) -> bool {
    s.len() % 2 == 0 && all_hex_digits(s)
}

/// The byte string a hexadecimal string denotes, two digits per byte;
/// meaningful only when `bytes_of_hex_ok(s)`.
pub open spec fn bytes_of_hex(s: Seq<char>) -> Seq<u8>
    decreases s.len(),
{
    if s.len() < 2 {
        Seq::empty()
    } else {
        bytes_of_hex(s.take(s.len() - 2)) + seq![
            (hex_digit_val(s[s.len() - 2]) * 16 + hex_digit_val(s[s.len() - 1])) as u8,
        ]
    }
}

/// The hexadecimal rendering of a byte string has two characters per byte.
pub proof fn lemma_hex_of_bytes_len(s: Seq<u8>)
    ensures
        hex_of_bytes(s).len() == 2 * s.len(),
    decreases s.len(),
{
    if s.len() > 0 {
        lemma_hex_of_bytes_len(s.drop_last());
    }
}

/// Each hexadecimal digit character is one, and decodes to its nibble.
pub proof fn lemma_hex_char_of(n: nat)
    requires
        n < 16,
    ensures
        is_hex_digit(hex_char_of(n)),
        hex_digit_val(hex_char_of(n)) == n,
{
}

/// Encoding bytes as hexadecimal and decoding the text gives the bytes
/// back.
pub proof fn lemma_hex_round_trip(b: Seq<u8>)
    ensures
        bytes_of_hex_ok(hex_of_bytes(b)),
        bytes_of_hex(hex_of_bytes(b)) == b,
    decreases b.len(),
{
    lemma_hex_of_bytes_len(b);
    if b.len() == 0 {
        assert(bytes_of_hex(hex_of_bytes(b)) =~= b);
    } else {
        lemma_hex_round_trip(b.drop_last());
        lemma_hex_of_bytes_len(b.drop_last());
        let s = hex_of_bytes(b);
        let hi = (b.last() / 16) as nat;
        let lo = (b.last() % 16) as nat;
        lemma_hex_char_of(hi);
        lemma_hex_char_of(lo);
        assert(s.take(s.len() - 2) =~= hex_of_bytes(b.drop_last()));
        assert(s[s.len() - 2] == hex_char_of(hi));
        assert(s[s.len() - 1] == hex_char_of(lo));
        assert forall|i: int| 0 <= i < s.len() implies is_hex_digit(#[trigger] s[i]) by {
            if i < s.len() - 2 {
                assert(s[i] == hex_of_bytes(b.drop_last())[i]);
            }
        }
        assert(hex_digit_val(s[s.len() - 2]) * 16 + hex_digit_val(s[s.len() - 1]) == b.last());
        assert(bytes_of_hex(s) =~= b);
    }
}

/// The value of a hexadecimal digit character, or `None` if `c` is no such
/// digit.
pub fn hex_digit_value(c: char) -> (r: Option<u8>)
    ensures
        match r {
            Some(v) => is_hex_digit(c) && v as nat == hex_digit_val(c) && v < 16,
            None => !is_hex_digit(c),
        },
{
    let u = c as u32;
    if 48 <= u && u <= 57 {
        Some((u - 48) as u8)
    } else if 97 <= u && u <= 102 {
        Some((u - 87) as u8)
    } else if 65 <= u && u <= 70 {
        Some((u - 55) as u8)
    } else {
        None
    }
}

/// A one-character string slice holding the lower-case digit for `n`.
pub fn nibble_str(n: u8) -> (r: &'static str)
    requires
        n < 16,
    ensures
        r@ =~= seq![hex_char_of(n as nat)],
{
    proof {
        reveal_strlit("0");
        reveal_strlit("1");
        reveal_strlit("2");
        reveal_strlit("3");
        reveal_strlit("4");
        reveal_strlit("5");
        reveal_strlit("6");
        reveal_strlit("7");
        reveal_strlit("8");
        reveal_strlit("9");
        reveal_strlit("a");
        reveal_strlit("b");
        reveal_strlit("c");
        reveal_strlit("d");
        reveal_strlit("e");
        reveal_strlit("f");
    }
    match n {
        0 => "0",
        1 => "1",
        2 => "2",
        3 => "3",
        4 => "4",
        5 => "5",
        6 => "6",
        7 => "7",
        8 => "8",
        9 => "9",
        10 => "a",
        11 => "b",
        12 => "c",
        13 => "d",
        14 => "e",
        _ => "f",
    }
}

/// A one-character string slice holding the upper-case digit for `n`.
pub fn nibble_str_upper(n: u8) -> (r: &'static str)
    requires
        n < 16,
    ensures
        r@ =~= seq![hex_char_upper_of(n as nat)],
{
    proof {
        reveal_strlit("A");
        reveal_strlit("B");
        reveal_strlit("C");
        reveal_strlit("D");
        reveal_strlit("E");
        reveal_strlit("F");
    }
    if n < 10 {
        nibble_str(n)
    } else {
        match n {
            10 => "A",
            11 => "B",
            12 => "C",
            13 => "D",
            14 => "E",
            _ => "F",
        }
    }
}

/// Decodes a hexadecimal string into bytes.
///
/// Returns `None` exactly when the length is odd or a character is no
/// hexadecimal digit.
pub fn decode_bytes(s: &str) -> (r: Option<Vec<u8>>)
    ensures
        match r {
            Some(v) => bytes_of_hex_ok(s@) && v@ == bytes_of_hex(s@),
            None => !bytes_of_hex_ok(s@),
        },
{
    let n = s.unicode_len();
    if n % 2 != 0 {
        return None;
    }
    let mut out: Vec<u8> = Vec::new();
    let mut i: usize = 0;
    while i < n
        invariant
            i <= n,
            i % 2 == 0,
            n % 2 == 0,
            n == s@.len(),
            all_hex_digits(s@.take(i as int)),
            out@ == bytes_of_hex(s@.take(i as int)),
        decreases n - i,
    {
        let hi = match hex_digit_value(s.get_char(i)) {
            Some(d) => d,
            None => {
                proof {
                    assert(!is_hex_digit(s@[i as int]));
                }
                return None;
            },
        };
        let lo = match hex_digit_value(s.get_char(i + 1)) {
            Some(d) => d,
            None => {
                proof {
                    assert(!is_hex_digit(s@[i + 1 as int]));
                }
                return None;
            },
        };
        out.push(hi * 16 + lo);
        proof {
            assert(s@.take(i + 2 as int).take(i as int) =~= s@.take(i as int));
            assert(out@ =~= bytes_of_hex(s@.take(i + 2 as int)));
        }
        i = i + 2;
    }
    proof {
        assert(s@.take(n as int) =~= s@);
    }
    Some(out)
}

/// Renders a byte string as lower-case hexadecimal.
pub fn encode_bytes(v: &Vec<u8>) -> (r: String)
    ensures
        r@ == hex_of_bytes(v@),
{
    let mut out = String::new();
    let mut i: usize = 0;
    while i < v.len()
        invariant
            i <= v.len(),
            out@ == hex_of_bytes(v@.take(i as int)),
        decreases v.len() - i,
    {
        let b = v[i];
        out.append(nibble_str(b / 16));
        out.append(nibble_str(b % 16));
        proof {
            assert(v@.take(i + 1 as int).drop_last() =~= v@.take(i as int));
            assert(v@.take(i + 1 as int).last() == v@[i as int]);
        }
        i = i + 1;
    }
    proof {
        assert(v@.take(v@.len() as int) =~= v@);
    }
    out
}

} // verus!
