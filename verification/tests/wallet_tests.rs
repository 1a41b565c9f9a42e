use evm_pvp::amount::Amount;
use evm_pvp::errors::Error;
use evm_pvp::wallet::{generate_keypair, Wallet};

// The secp256k1 secret scalar 1; its address is a well-known vector.
fn secret_one() -> String {
    format!("{}1", "0".repeat(63))
}

fn wallet_one() -> Wallet {
    let (sk, pk) = generate_keypair(Some(&secret_one())).unwrap();
    Wallet::new(&sk, &pk).unwrap()
}

#[test]
fn address_derived_from_public_key_matches_known_vector() {
    let w = wallet_one();
    assert_eq!(w.get_eth_address(), "0x7E5F4552091A69125d5DfCb7b8C2659029395Bdf".to_string());
    assert_eq!(w.get_secret_key(), secret_one());
    assert_eq!(w.get_public_key().len(), 130);
}

#[test]
fn generated_keypairs_are_fresh_and_usable() {
    let (sk1, pk1) = generate_keypair(None).unwrap();
    let (sk2, pk2) = generate_keypair(None).unwrap();
    assert_eq!(sk1.len(), 64);
    assert_eq!(pk1.len(), 130);
    assert_ne!(sk1, sk2);
    assert_ne!(pk1, pk2);
}

#[test]
fn generate_keypair_rejects_bad_secret() {
    let bad = "zz".to_string();
    assert_eq!(generate_keypair(Some(&bad)).unwrap_err(), Error::BadRequest);
    // The zero scalar is not a valid secret key.
    let zero = "0".repeat(64);
    assert_eq!(generate_keypair(Some(&zero)).unwrap_err(), Error::BadRequest);
}

#[test]
fn add_network_once_only() {
    let mut w = wallet_one();
    let n1 = "mainnet".to_string();
    assert!(w.add_network(&n1).is_ok());
    assert_eq!(w.add_network(&n1).unwrap_err(), Error::AlreadyExists);
    let (free, locked) = w.get_network_balance(&n1).unwrap();
    assert!(free.is_zero());
    assert!(locked.is_zero());
}

#[test]
fn lock_updates_balances_and_attests() {
    let mut w = wallet_one();
    let n1 = "mainnet".to_string();
    w.add_network(&n1).unwrap();
    let ts = "1700000000".to_string();
    let value = Amount::from_hex("40").unwrap();
    let witness = Amount::from_hex("100").unwrap();
    let proof_line = w.lock(&n1, value, witness, &ts).unwrap();
    let (free, locked) = w.get_network_balance(&n1).unwrap();
    assert_eq!(free, Amount::from_hex("c0").unwrap());
    assert_eq!(locked, Amount::from_hex("40").unwrap());
    let expected = format!(
        "lock|mainnet|{}|0x{}40|1700000000|0x{}c0|0x{}40",
        w.get_eth_address(),
        "0".repeat(62),
        "0".repeat(62),
        "0".repeat(62),
    );
    assert_eq!(proof_line, expected);
}

#[test]
fn lock_with_value_above_witness_underflows() {
    let mut w = wallet_one();
    let n1 = "mainnet".to_string();
    w.add_network(&n1).unwrap();
    let ts = "0".to_string();
    let value = Amount::from_hex("101").unwrap();
    let witness = Amount::from_hex("100").unwrap();
    assert_eq!(w.lock(&n1, value, witness, &ts).unwrap_err(), Error::Underflow);
    // Nothing changed.
    let (free, locked) = w.get_network_balance(&n1).unwrap();
    assert!(free.is_zero());
    assert!(locked.is_zero());
}

#[test]
fn unlock_moves_locked_back_to_free() {
    let mut w = wallet_one();
    let n1 = "mainnet".to_string();
    w.add_network(&n1).unwrap();
    let ts = "0".to_string();
    w.lock(&n1, Amount::from_hex("40").unwrap(), Amount::from_hex("100").unwrap(), &ts).unwrap();
    w.unlock(&n1, Amount::from_hex("30").unwrap(), &ts).unwrap();
    let (free, locked) = w.get_network_balance(&n1).unwrap();
    assert_eq!(free, Amount::from_hex("f0").unwrap());
    assert_eq!(locked, Amount::from_hex("10").unwrap());
    assert_eq!(
        w.unlock(&n1, Amount::from_hex("11").unwrap(), &ts).unwrap_err(),
        Error::Underflow
    );
}

#[test]
fn burn_above_free_underflows() {
    let mut w = wallet_one();
    let n1 = "mainnet".to_string();
    w.add_network(&n1).unwrap();
    let ts = "0".to_string();
    w.lock(&n1, Amount::zero(), Amount::from_hex("50").unwrap(), &ts).unwrap();
    assert_eq!(
        w.burn(&n1, &Amount::from_hex("51").unwrap()).unwrap_err(),
        Error::Underflow
    );
    w.burn(&n1, &Amount::from_hex("20").unwrap()).unwrap();
    let (free, _) = w.get_network_balance(&n1).unwrap();
    assert_eq!(free, Amount::from_hex("30").unwrap());
}

#[test]
fn mint_credits_free_and_overflows_at_the_top() {
    let mut w = wallet_one();
    let n1 = "mainnet".to_string();
    w.add_network(&n1).unwrap();
    let ts = "0".to_string();
    let max = Amount::from_hex(&"f".repeat(64)).unwrap();
    w.lock(&n1, Amount::zero(), max, &ts).unwrap();
    assert_eq!(
        w.mint(&n1, &Amount::from_hex("1").unwrap()).unwrap_err(),
        Error::Overflow
    );
}

#[test]
fn balance_ops_need_a_binding() {
    let mut w = wallet_one();
    let missing = "nowhere".to_string();
    let ts = "0".to_string();
    assert_eq!(
        w.mint(&missing, &Amount::from_hex("1").unwrap()).unwrap_err(),
        Error::NotFound
    );
    assert_eq!(
        w.lock(&missing, Amount::zero(), Amount::zero(), &ts).unwrap_err(),
        Error::NotFound
    );
}

#[test]
fn user_and_transaction_backrefs_reject_duplicates() {
    let mut w = wallet_one();
    let alice = "alice".to_string();
    assert!(w.add_user(&alice).is_ok());
    assert_eq!(w.add_user(&alice).unwrap_err(), Error::AlreadyExists);
    let tx = "t1".to_string();
    assert!(w.add_transaction(&tx).is_ok());
    assert_eq!(w.add_transaction(&tx).unwrap_err(), Error::AlreadyExists);
    assert_eq!(w.get_users().len(), 1);
    assert_eq!(w.get_transactions().len(), 1);
}
