//! Type-2 (EIP-1559) transactions: the signing payload, the digest, and
//! the signed broadcast envelope.
//!
//! The payload is the byte 2 followed by the RLP list of the nine fields;
//! the digest is its Keccak-256; the envelope appends the recoverable
//! signature's parity, r and s to the list.  The host broadcasts the
//! hex-rendered envelope over JSON-RPC.

use crate::amount::Amount;
use crate::crypto;
use crate::errors::Error;
use crate::rlp;
use vstd::prelude::*;

verus! {

/// A type-2 transaction awaiting signature.  `to` holds the 20 raw bytes
/// of the recipient, or nothing for contract creation; the access list is
/// always empty.
pub struct Eip1559Tx {
    pub chain_id: u64,
    pub nonce: u64,
    pub max_priority_fee_per_gas: u128,
    pub max_fee_per_gas: u128,
    pub gas_limit: u64,
    pub to: Option<Vec<u8>>,
    pub value: Amount,
    pub input: Vec<u8>,
}

/// The recipient field's RLP encoding: the address bytes, or the empty
/// string for creation.
pub open spec fn rlp_to(to: Option<Vec<u8>>) -> Seq<u8> {
    match to {
        Some(a) => rlp::rlp_str(a@),
        None => rlp::rlp_str(Seq::empty()),
    }
}

/// The concatenated RLP encodings of the nine fields, the empty access
/// list last.
pub open spec fn fields_payload(tx: &Eip1559Tx) -> Seq<u8> {
    rlp::rlp_u64(tx.chain_id) + rlp::rlp_u64(tx.nonce) + rlp::rlp_u128(tx.max_priority_fee_per_gas)
        + rlp::rlp_u128(tx.max_fee_per_gas) + rlp::rlp_u64(tx.gas_limit) + rlp_to(tx.to)
        + rlp::rlp_amount(tx.value) + rlp::rlp_str(tx.input@) + rlp::rlp_list(Seq::empty())
}

/// The bytes whose Keccak-256 digest is signed.
pub open spec fn signing_payload_bytes(tx: &Eip1559Tx) -> Seq<u8> {
    seq![2u8] + rlp::rlp_list(fields_payload(tx))
}

/// The signature parity's RLP encoding: an empty string for even, the
/// byte 1 for odd.
pub open spec fn rlp_parity(v: bool) -> Seq<u8> {
    if v {
        rlp::rlp_str(seq![1u8])
    } else {
        rlp::rlp_str(Seq::empty())
    }
}

/// The signed broadcast envelope.
pub open spec fn envelope_bytes(tx: &Eip1559Tx, v: bool, r: Seq<u8>, s: Seq<u8>) -> Seq<u8> {
    seq![2u8] + rlp::rlp_list(
        fields_payload(tx) + rlp_parity(v) + rlp::rlp_str(rlp::trim_zeros(r)) + rlp::rlp_str(
            rlp::trim_zeros(s),
        ),
    )
}

/// Builds the concatenated field encodings.
fn encode_fields(tx: &Eip1559Tx) -> (r: Vec<u8>)
    ensures
        r@ == fields_payload(tx),
{
    let mut out: Vec<u8> = Vec::new();
    rlp::append_rlp_u64(&mut out, tx.chain_id);
    rlp::append_rlp_u64(&mut out, tx.nonce);
    rlp::append_rlp_u128(&mut out, tx.max_priority_fee_per_gas);
    rlp::append_rlp_u128(&mut out, tx.max_fee_per_gas);
    rlp::append_rlp_u64(&mut out, tx.gas_limit);
    match &tx.to {
        Some(a) => {
            rlp::append_rlp_str(&mut out, a);
        },
        None => {
            let empty: Vec<u8> = Vec::new();
            rlp::append_rlp_str(&mut out, &empty);
        },
    }
    rlp::append_rlp_amount(&mut out, &tx.value);
    rlp::append_rlp_str(&mut out, &tx.input);
    let empty_list: Vec<u8> = Vec::new();
    let al = rlp::rlp_list_bytes(&empty_list);
    rlp::append_bytes(&mut out, &al);
    proof {
        assert(out@ =~= fields_payload(tx));
    }
    out
}

/// Builds the bytes whose digest is signed.
pub fn encode_signing_payload(tx: &Eip1559Tx) -> (r: Vec<u8>)
    ensures
        r@ == signing_payload_bytes(tx),
{
    let fields = encode_fields(tx);
    let list = rlp::rlp_list_bytes(&fields);
    let mut out: Vec<u8> = Vec::new();
    out.push(2u8);
    rlp::append_bytes(&mut out, &list);
    proof {
        assert(out@ =~= signing_payload_bytes(tx));
    }
    out
}

/// Signs the transaction with a 32-byte secret key and builds the
/// broadcast envelope.
///
/// Fails `BadRequest` exactly when the key bytes are no valid secret
/// scalar.
pub fn sign_transaction(tx: &Eip1559Tx, secret: &Vec<u8>) -> (r: Result<Vec<u8>, Error>)
    ensures
        r is Ok <==> crypto::secp256k1_scalar_ok(secret@),
        match r {
            Ok(env) => ({
                let sig = crypto::secp256k1_sig_of(
                    secret@,
                    crypto::keccak_of(signing_payload_bytes(tx)),
                );
                env@ == envelope_bytes(tx, sig.2, sig.0, sig.1)
            }),
            Err(e) => e == Error::BadRequest,
        },
{
    let payload = encode_signing_payload(tx);
    let digest = crypto::keccak256(&payload);
    let (sig_r, sig_s, sig_v) = match crypto::sign_digest(secret, &digest) {
        Some(s) => s,
        None => {
            return Err(Error::BadRequest);
        },
    };
    let mut fields = encode_fields(tx);
    if sig_v {
        let one: Vec<u8> = vec![1u8];
        rlp::append_rlp_str(&mut fields, &one);
        proof {
            assert(one@ =~= seq![1u8]);
        }
    } else {
        let empty: Vec<u8> = Vec::new();
        rlp::append_rlp_str(&mut fields, &empty);
    }
    let tr = rlp::trim_leading_zeros(&sig_r);
    rlp::append_rlp_str(&mut fields, &tr);
    let ts = rlp::trim_leading_zeros(&sig_s);
    rlp::append_rlp_str(&mut fields, &ts);
    let list = rlp::rlp_list_bytes(&fields);
    let mut out: Vec<u8> = Vec::new();
    out.push(2u8);
    rlp::append_bytes(&mut out, &list);
    proof {
        let sig = crypto::secp256k1_sig_of(secret@, crypto::keccak_of(signing_payload_bytes(tx)));
        assert(fields@ =~= fields_payload(tx) + rlp_parity(sig.2) + rlp::rlp_str(
            rlp::trim_zeros(sig.0),
        ) + rlp::rlp_str(rlp::trim_zeros(sig.1)));
        assert(out@ =~= envelope_bytes(tx, sig.2, sig.0, sig.1));
    }
    Ok(out)
}

} // verus!
