use alloy_consensus::transaction::SignableTransaction;
use alloy_consensus::TxEip1559;
use alloy_primitives::{keccak256, Address, Bytes, TxKind, U256};
use evm_pvp::address::parse_address;
use evm_pvp::amount::Amount;
use evm_pvp::eip1559::{encode_signing_payload, Eip1559Tx};
use evm_pvp::errors::Error;
use evm_pvp::network::{Network, Networks};
use evm_pvp::wallet::{generate_keypair, Wallet};
use k256::ecdsa::{SigningKey, VerifyingKey};
use k256::elliptic_curve::sec1::ToSec1Point;
use std::str::FromStr;

fn secret_one() -> String {
    format!("{}1", "0".repeat(63))
}

fn sample_tx() -> Eip1559Tx {
    Eip1559Tx {
        chain_id: 1,
        nonce: 7,
        max_priority_fee_per_gas: 1_000_000_000,
        max_fee_per_gas: 30_000_000_000,
        gas_limit: 21_000,
        to: Some(parse_address("0x0E8f8ad443a1270a7D8Af3B30D288DaA0F988e40").unwrap()),
        value: Amount::from_hex("2386F26FC10000").unwrap(),
        input: Vec::new(),
    }
}

#[test]
fn signing_payload_matches_reference_encoder() {
    let tx = sample_tx();
    let payload = encode_signing_payload(&tx);

    let reference = TxEip1559 {
        chain_id: 1,
        nonce: 7,
        gas_limit: 21_000,
        max_fee_per_gas: 30_000_000_000,
        max_priority_fee_per_gas: 1_000_000_000,
        to: TxKind::Call(Address::from_str("0x0E8f8ad443a1270a7D8Af3B30D288DaA0F988e40").unwrap()),
        value: U256::from_str_radix("2386F26FC10000", 16).unwrap(),
        input: Bytes::new(),
        ..Default::default()
    };
    let expected_hash = reference.signature_hash();
    assert_eq!(keccak256(&payload), expected_hash);
}

#[test]
fn deployment_payload_matches_reference_encoder() {
    // Contract creation: no recipient, zero value, an input long enough to
    // need a length-of-length string header.
    let init_code: Vec<u8> = (0u8..90u8).collect();
    let tx = Eip1559Tx {
        chain_id: 5,
        nonce: 0,
        max_priority_fee_per_gas: 2,
        max_fee_per_gas: 3,
        gas_limit: 1_000_000,
        to: None,
        value: Amount::zero(),
        input: init_code.clone(),
    };
    let payload = encode_signing_payload(&tx);

    let reference = TxEip1559 {
        chain_id: 5,
        nonce: 0,
        gas_limit: 1_000_000,
        max_fee_per_gas: 3,
        max_priority_fee_per_gas: 2,
        to: TxKind::Create,
        value: U256::ZERO,
        input: Bytes::from(init_code),
        ..Default::default()
    };
    assert_eq!(keccak256(&payload), reference.signature_hash());
}

#[test]
fn recovered_signer_equals_wallet_address() {
    let (sk, pk) = generate_keypair(Some(&secret_one())).unwrap();
    let wallet = Wallet::new(&sk, &pk).unwrap();
    let mut networks = Networks::new();
    networks
        .add_network(Network::new("N1".to_string(), Some(1), "http://n1".to_string(), None, None))
        .unwrap();

    let tx = sample_tx();
    let raw = wallet.sign_transaction(&networks, &"N1".to_string(), &tx).unwrap();
    assert!(raw.starts_with("0x02"));

    // Recompute the deterministic signature and recover the signer.
    let payload = encode_signing_payload(&tx);
    let digest = keccak256(&payload);
    let secret_bytes = {
        let mut b = [0u8; 32];
        b[31] = 1;
        b
    };
    let signer = SigningKey::from_slice(&secret_bytes).unwrap();
    let (sig, rid) = signer.sign_prehash_recoverable(digest.as_slice());
    let recovered = VerifyingKey::recover_from_prehash(digest.as_slice(), &sig, rid).unwrap();
    let point = recovered.as_affine().to_sec1_point(false);
    let hash = keccak256(&point.as_bytes()[1..]);
    let recovered_address = format!("0x{}", hex_lower(&hash.as_slice()[12..]));
    assert_eq!(recovered_address, wallet.get_eth_address().to_lowercase());

    // The envelope embeds exactly this signature.
    let r_hex = hex_lower(&sig.to_bytes()[..32]);
    let trimmed_r = r_hex.trim_start_matches('0');
    assert!(raw.contains(trimmed_r));
}

#[test]
fn signing_rejects_unusable_stored_keys() {
    let mut networks = Networks::new();
    networks
        .add_network(Network::new("N1".to_string(), Some(1), "http://n1".to_string(), None, None))
        .unwrap();
    let tx = sample_tx();
    let (sk, pk) = generate_keypair(Some(&secret_one())).unwrap();
    let good = Wallet::new(&sk, &pk).unwrap();

    // A stored key that is not hex at all is a broken record.
    let mut corrupt = Wallet::new(&sk, &pk).unwrap();
    corrupt.secret_key = "zz".to_string();
    assert_eq!(
        corrupt.sign_transaction(&networks, &"N1".to_string(), &tx).unwrap_err(),
        Error::Internal
    );

    // Hex that decodes to the zero scalar is rejected by the signer.
    let mut zeroed = Wallet::new(&sk, &pk).unwrap();
    zeroed.secret_key = "0".repeat(64);
    assert_eq!(
        zeroed.sign_transaction(&networks, &"N1".to_string(), &tx).unwrap_err(),
        Error::BadRequest
    );

    assert!(good.sign_transaction(&networks, &"N1".to_string(), &tx).is_ok());
}

#[test]
fn signing_needs_a_registered_network() {
    let (sk, pk) = generate_keypair(Some(&secret_one())).unwrap();
    let wallet = Wallet::new(&sk, &pk).unwrap();
    let networks = Networks::new();
    let tx = sample_tx();
    assert_eq!(
        wallet.sign_transaction(&networks, &"N1".to_string(), &tx).unwrap_err(),
        Error::NotFound
    );
}

fn hex_lower(bytes: &[u8]) -> String {
    let mut s = String::new();
    for b in bytes {
        s.push_str(&format!("{:02x}", b));
    }
    s
}
