//! Solidity call encoding for the ERC-20-style `mint` and `burn` entry
//! points.
//!
//! A call is the four-byte selector — the leading bytes of the Keccak-256
//! digest of the canonical signature — followed by each argument padded to
//! a 32-byte word: the address left-padded with twelve zero bytes, the
//! amount as its full 32 big-endian bytes.

use crate::amount::{amount_bytes, Amount};
use crate::crypto;
use vstd::prelude::*;
use vstd::string::StringSliceAdditionalSpecFns;

verus! {

/// The four-byte selector of a canonical signature's ascii bytes.
pub open spec fn selector_of(sig: Seq<u8>) -> Seq<u8> {
    crypto::keccak_of(sig).take(4)
}

/// Twelve zero bytes, the left padding of an address word.
pub open spec fn address_padding() -> Seq<u8> {
    Seq::new(12, |i: int| 0u8)
}

/// The encoded `(address, uint256)` call under the given selector.
pub open spec fn call_bytes(selector: Seq<u8>, addr: Seq<u8>, value: Amount) -> Seq<u8> {
    selector + address_padding() + addr + amount_bytes(value)
}

/// Computes the four-byte selector of a signature string.
fn selector(sig: &str) -> (r: Vec<u8>)
    ensures
        r@ == selector_of(sig.spec_bytes()),
{
    let bytes = sig.as_bytes_vec();
    let digest = crypto::keccak256(&bytes);
    let mut out: Vec<u8> = Vec::new();
    out.push(digest[0]);
    out.push(digest[1]);
    out.push(digest[2]);
    out.push(digest[3]);
    proof {
        assert(out@ =~= selector_of(sig.spec_bytes()));
    }
    out
}

/// Encodes one `(address, uint256)` call under the given signature.
fn encode_call(sig: &str, recipient: &Vec<u8>, value: &Amount) -> (r: Vec<u8>)
    requires
        recipient@.len() == 20,
    ensures
        r@ == call_bytes(selector_of(sig.spec_bytes()), recipient@, *value),
{
    let mut out = selector(sig);
    let mut i: usize = 0;
    while i < 12
        invariant
            i <= 12,
            out@ == selector_of(sig.spec_bytes()) + address_padding().take(i as int),
        decreases 12 - i,
    {
        out.push(0u8);
        proof {
            assert(address_padding().take(i + 1 as int) =~= address_padding().take(i as int).push(
                0u8,
            ));
            assert(out@ =~= selector_of(sig.spec_bytes()) + address_padding().take(i + 1 as int));
        }
        i = i + 1;
    }
    proof {
        assert(address_padding().take(12) =~= address_padding());
    }
    crate::rlp::append_bytes(&mut out, recipient);
    let vb = value.to_be_bytes();
    crate::rlp::append_bytes(&mut out, &vb);
    proof {
        assert(out@ =~= call_bytes(selector_of(sig.spec_bytes()), recipient@, *value));
    }
    out
}

/// Encodes a `mint(address,uint256)` call.
pub fn mint_call(recipient: &Vec<u8>, value: &Amount) -> (r: Vec<u8>)
    requires
        recipient@.len() == 20,
    ensures
        r@ == call_bytes(
            selector_of("mint(address,uint256)".spec_bytes()),
            recipient@,
            *value,
        ),
{
    encode_call("mint(address,uint256)", recipient, value)
}

/// Encodes a `burn(address,uint256)` call.
pub fn burn_call(recipient: &Vec<u8>, value: &Amount) -> (r: Vec<u8>)
    requires
        recipient@.len() == 20,
    ensures
        r@ == call_bytes(
            selector_of("burn(address,uint256)".spec_bytes()),
            recipient@,
            *value,
        ),
{
    encode_call("burn(address,uint256)", recipient, value)
}

} // verus!
