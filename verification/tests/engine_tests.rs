use evm_pvp::amount::Amount;
use evm_pvp::engine::{
    find_wallet, transaction_add, transaction_apply, transaction_commit, user_add,
    user_add_wallet, wallet_add, wallet_add_network, wallet_lock, CommitRequest, Store,
};
use evm_pvp::errors::Error;
use evm_pvp::network::{Network, Networks};
use evm_pvp::transaction::{Participant, PvPstate};
use evm_pvp::transactions::Transactions;
use evm_pvp::users::Users;
use evm_pvp::wallets::Wallets;

fn empty_store() -> Store {
    Store {
        wallets: Vec::new(),
        wallet_index: Wallets::new(),
        users: Vec::new(),
        user_index: Users::new(),
        transactions: Vec::new(),
        tx_index: Transactions::new(),
    }
}

fn secret(tail: &str) -> String {
    format!("{}{}", "0".repeat(64 - tail.len()), tail)
}

fn amt(h: &str) -> Amount {
    Amount::from_hex(h).unwrap()
}

fn free_of(store: &Store, addr: &String, net: &str) -> Amount {
    let wi = find_wallet(&store.wallets, addr).unwrap();
    let (free, _) = store.wallets[wi].get_network_balance(&net.to_string()).unwrap();
    free
}

fn state_of(store: &Store, tx_id: &String) -> PvPstate {
    for t in &store.transactions {
        if &t.id == tx_id {
            return t.payment_vs_payment.as_ref().unwrap().state_machine;
        }
    }
    panic!("transaction not found");
}

struct Setup {
    store: Store,
    wa: String,
    wb: String,
    tx_id: String,
    escrow: String,
}

/// Networks N1 and N2; alice owns Wa on both networks, bob owns Wb on
/// both; swift orchestrates a 0x100-for-0x80 exchange.
fn setup() -> Setup {
    let mut registry = Networks::new();
    registry
        .add_network(Network::new("N1".to_string(), Some(1), "http://n1".to_string(), None, None))
        .unwrap();
    registry
        .add_network(Network::new("N2".to_string(), Some(2), "http://n2".to_string(), None, None))
        .unwrap();
    assert_eq!(registry.get_networks().len(), 2);

    let mut store = empty_store();
    let ts = "1700000000".to_string();
    for who in ["alice", "bob", "swift"] {
        user_add(&mut store, &who.to_string()).unwrap();
    }
    let wa = wallet_add(&mut store, Some(&secret("a1")), &ts).unwrap();
    let wb = wallet_add(&mut store, Some(&secret("b2")), &ts).unwrap();
    user_add_wallet(&mut store, &"alice".to_string(), &wa).unwrap();
    user_add_wallet(&mut store, &"bob".to_string(), &wb).unwrap();
    for net in ["N1", "N2"] {
        wallet_add_network(&mut store, &wa, &net.to_string()).unwrap();
        wallet_add_network(&mut store, &wb, &net.to_string()).unwrap();
    }
    // Fund the participant wallets via a zero lock against an observed
    // on-chain balance.
    wallet_lock(&mut store, &wa, &"N1".to_string(), Amount::zero(), amt("1000"), &ts).unwrap();
    wallet_lock(&mut store, &wb, &"N2".to_string(), Amount::zero(), amt("1000"), &ts).unwrap();

    let tx_id = transaction_add(
        &mut store,
        &"swift".to_string(),
        Participant { network_name: "N1".to_string(), address: wa.clone(), amount: amt("100") },
        Participant { network_name: "N2".to_string(), address: wb.clone(), amount: amt("80") },
        &ts,
    )
    .unwrap();
    let escrow = store.transactions[0].escrow_address.clone();
    Setup { store, wa, wb, tx_id, escrow }
}

fn commit_req(s: &Setup, address: &str, net: &str, amount: &str, hash: Option<&str>) -> CommitRequest {
    CommitRequest {
        tx_id: s.tx_id.clone(),
        address: address.to_string(),
        network_name: net.to_string(),
        amount: amt(amount),
        escrow_address: s.escrow.clone(),
        tx_hash: hash.map(|h| h.to_string()),
    }
}

#[test]
fn transaction_add_creates_escrow_in_awaiting_source_receive() {
    let s = setup();
    assert_eq!(s.tx_id.len(), 128);
    assert_eq!(state_of(&s.store, &s.tx_id), PvPstate::AwaitingSourceReceive);
    let ei = find_wallet(&s.store.wallets, &s.escrow).unwrap();
    let esc = &s.store.wallets[ei];
    assert!(esc.get_network_balance(&"N1".to_string()).is_some());
    assert!(esc.get_network_balance(&"N2".to_string()).is_some());
    assert_eq!(esc.get_users(), &vec!["swift".to_string()]);
    assert_eq!(esc.get_transactions(), &vec![s.tx_id.clone()]);
    // The orchestrator owns the escrow wallet; the participants are members.
    let ui = s.store.users.iter().position(|u| u.id == "swift").unwrap();
    assert!(s.store.users[ui].owns_wallet(&s.escrow));
    for who in ["alice", "bob", "swift"] {
        let k = s.store.users.iter().position(|u| u.id == who).unwrap();
        assert!(s.store.users[k].is_member_of(&s.tx_id));
    }
}

#[test]
fn happy_path_settles_both_legs() {
    let mut s = setup();
    let swift = "swift".to_string();
    let alice = "alice".to_string();
    let bob = "bob".to_string();

    // Source receive: alice commits an on-chain hash, then finalizes.
    let wa_addr = s.wa.clone();
    let h1 = {
        let rq1 = commit_req(&s, &wa_addr, "N1", "100", Some("0xaa11"));
        transaction_commit(&mut s.store, &alice, &rq1)
    }
    .unwrap();
    assert_eq!(h1, "0xaa11");
    assert_eq!(state_of(&s.store, &s.tx_id), PvPstate::AwaitingSourceReceiveFinalized);
    transaction_apply(&mut s.store, &alice, &s.tx_id.clone(), &h1).unwrap();
    assert_eq!(state_of(&s.store, &s.tx_id), PvPstate::AwaitingDestinationReceive);
    assert_eq!(free_of(&s.store, &s.escrow, "N1"), amt("100"));
    assert_eq!(free_of(&s.store, &s.wa, "N1"), amt("f00"));

    // Destination receive: bob commits; the engine draws the audit key.
    let wb_addr = s.wb.clone();
    let h2 = {
        let rq2 = commit_req(&s, &wb_addr, "N2", "80", None);
        transaction_commit(&mut s.store, &bob, &rq2)
    }
    .unwrap();
    assert!(h2.starts_with("0x") && h2.len() == 66);
    assert_eq!(state_of(&s.store, &s.tx_id), PvPstate::AwaitingDestinationReceiveFinalized);
    transaction_apply(&mut s.store, &bob, &s.tx_id.clone(), &h2).unwrap();
    assert_eq!(state_of(&s.store, &s.tx_id), PvPstate::AwaitingDestinationSend);
    assert_eq!(free_of(&s.store, &s.escrow, "N2"), amt("80"));
    assert_eq!(free_of(&s.store, &s.wb, "N2"), amt("f80"));

    // Destination send: the orchestrator commits the leg under the stored
    // source-side parameters.
    let h3 = {
        let rq3 = commit_req(&s, &wb_addr, "N1", "100", Some("0xcc33"));
        transaction_commit(&mut s.store, &swift, &rq3)
    }
    .unwrap();
    assert_eq!(state_of(&s.store, &s.tx_id), PvPstate::AwaitingDestinationSendFinalized);
    transaction_apply(&mut s.store, &swift, &s.tx_id.clone(), &h3).unwrap();
    assert_eq!(state_of(&s.store, &s.tx_id), PvPstate::AwaitingSourceSend);
    assert!(free_of(&s.store, &s.escrow, "N2").is_zero());
    assert_eq!(free_of(&s.store, &s.wa, "N2"), amt("80"));

    // Source send: the orchestrator commits under the stored
    // destination-side parameters; the engine draws the audit key.
    let h4 = {
        let rq4 = commit_req(&s, &wa_addr, "N2", "80", None);
        transaction_commit(&mut s.store, &swift, &rq4)
    }
    .unwrap();
    assert_eq!(state_of(&s.store, &s.tx_id), PvPstate::AwaitingSourceSendFinalized);
    transaction_apply(&mut s.store, &swift, &s.tx_id.clone(), &h4).unwrap();
    assert_eq!(state_of(&s.store, &s.tx_id), PvPstate::Complete);
    assert!(free_of(&s.store, &s.escrow, "N1").is_zero());
    assert_eq!(free_of(&s.store, &s.wb, "N1"), amt("100"));

    // The audit trail holds the four legs, all complete.
    let trail = &s.store.transactions[0].payment_vs_payment.as_ref().unwrap().network_transactions;
    assert_eq!(trail.len(), 4);
    for e in trail.iter() {
        assert_eq!(e.state, PvPstate::Complete);
    }

    // Applying on a complete transaction stays a no-op success.
    transaction_apply(&mut s.store, &swift, &s.tx_id.clone(), &h4).unwrap();
    assert_eq!(state_of(&s.store, &s.tx_id), PvPstate::Complete);
}

#[test]
fn commit_by_non_member_is_unauthorized() {
    let mut s = setup();
    user_add(&mut s.store, &"eve".to_string()).unwrap();
    let wa_addr = s.wa.clone();
    let r = { let rq = commit_req(&s, &wa_addr, "N1", "100", Some("0xaa")); transaction_commit(&mut s.store, &"eve".to_string(), &rq) };
    assert_eq!(r.unwrap_err(), Error::Unauthorized);
}

#[test]
fn commit_without_required_wallet_is_unauthorized() {
    let mut s = setup();
    // bob is a member, but the source leg demands the wallet Wa.
    let wa_addr = s.wa.clone();
    let r = { let rq = commit_req(&s, &wa_addr, "N1", "100", Some("0xaa")); transaction_commit(&mut s.store, &"bob".to_string(), &rq) };
    assert_eq!(r.unwrap_err(), Error::Unauthorized);
}

#[test]
fn commit_with_mismatched_amount_leaves_state_alone() {
    let mut s = setup();
    let wa_addr = s.wa.clone();
    let r = { let rq = commit_req(&s, &wa_addr, "N1", "101", Some("0xaa")); transaction_commit(&mut s.store, &"alice".to_string(), &rq) };
    assert_eq!(r.unwrap_err(), Error::Mismatch);
    assert_eq!(state_of(&s.store, &s.tx_id), PvPstate::AwaitingSourceReceive);
}

#[test]
fn commit_without_hash_on_an_external_leg_is_a_bad_request() {
    let mut s = setup();
    let wa_addr = s.wa.clone();
    let r = { let rq = commit_req(&s, &wa_addr, "N1", "100", None); transaction_commit(&mut s.store, &"alice".to_string(), &rq) };
    assert_eq!(r.unwrap_err(), Error::BadRequest);
}

#[test]
fn commit_from_a_finalized_state_is_wrong_state() {
    let mut s = setup();
    let alice = "alice".to_string();
    let wa_addr = s.wa.clone();
    {
        let rq5 = commit_req(&s, &wa_addr, "N1", "100", Some("0xaa11"));
        transaction_commit(&mut s.store, &alice, &rq5)
    }
    .unwrap();
    let r = {
        let rq6 = commit_req(&s, &wa_addr, "N1", "100", Some("0xaa22"));
        transaction_commit(&mut s.store, &alice, &rq6)
    };
    assert_eq!(r.unwrap_err(), Error::WrongState);
}

#[test]
fn apply_with_unknown_hash_is_not_found() {
    let mut s = setup();
    let alice = "alice".to_string();
    let wa_addr = s.wa.clone();
    {
        let rq7 = commit_req(&s, &wa_addr, "N1", "100", Some("0xaa11"));
        transaction_commit(&mut s.store, &alice, &rq7)
    }
    .unwrap();
    let r = transaction_apply(&mut s.store, &alice, &s.tx_id.clone(), &"0xdead".to_string());
    assert_eq!(r.unwrap_err(), Error::NotFound);
}

#[test]
fn replaying_an_apply_is_rejected() {
    let mut s = setup();
    let alice = "alice".to_string();
    let wa_addr = s.wa.clone();
    let h = {
        let rq8 = commit_req(&s, &wa_addr, "N1", "100", Some("0xaa11"));
        transaction_commit(&mut s.store, &alice, &rq8)
    }
    .unwrap();
    transaction_apply(&mut s.store, &alice, &s.tx_id.clone(), &h).unwrap();
    let before = free_of(&s.store, &s.escrow, "N1");
    let r = transaction_apply(&mut s.store, &alice, &s.tx_id.clone(), &h);
    assert_eq!(r.unwrap_err(), Error::WrongState);
    assert_eq!(free_of(&s.store, &s.escrow, "N1"), before);
}

#[test]
fn apply_on_unknown_transaction_is_not_found() {
    let mut s = setup();
    let r = transaction_apply(
        &mut s.store,
        &"alice".to_string(),
        &"nope".to_string(),
        &"0xaa".to_string(),
    );
    assert_eq!(r.unwrap_err(), Error::NotFound);
}

#[test]
fn duplicate_user_registration_is_rejected() {
    let mut s = setup();
    assert_eq!(user_add(&mut s.store, &"alice".to_string()).unwrap_err(), Error::AlreadyExists);
}

#[test]
fn linking_needs_both_records() {
    let mut store = empty_store();
    let ts = "0".to_string();
    user_add(&mut store, &"carol".to_string()).unwrap();
    let r = user_add_wallet(&mut store, &"carol".to_string(), &"0xnope".to_string());
    assert_eq!(r.unwrap_err(), Error::NotFound);
    let w = wallet_add(&mut store, Some(&secret("c3")), &ts).unwrap();
    let r2 = user_add_wallet(&mut store, &"dave".to_string(), &w);
    assert_eq!(r2.unwrap_err(), Error::NotFound);
    user_add_wallet(&mut store, &"carol".to_string(), &w).unwrap();
    assert_eq!(
        user_add_wallet(&mut store, &"carol".to_string(), &w).unwrap_err(),
        Error::AlreadyExists
    );
}

#[test]
fn duplicate_wallet_secret_is_rejected() {
    let mut store = empty_store();
    let ts = "0".to_string();
    wallet_add(&mut store, Some(&secret("a1")), &ts).unwrap();
    assert_eq!(
        wallet_add(&mut store, Some(&secret("a1")), &ts).unwrap_err(),
        Error::AlreadyExists
    );
}

#[test]
fn unusable_wallet_secret_is_a_bad_request() {
    let mut store = empty_store();
    let ts = "0".to_string();
    let not_hex = "zz".to_string();
    assert_eq!(wallet_add(&mut store, Some(&not_hex), &ts).unwrap_err(), Error::BadRequest);
    let zero_scalar = "0".repeat(64);
    assert_eq!(wallet_add(&mut store, Some(&zero_scalar), &ts).unwrap_err(), Error::BadRequest);
    assert!(store.wallets.is_empty());
}

#[test]
fn transaction_add_needs_both_wallets_and_the_sender() {
    let mut s = setup();
    let src = Participant {
        network_name: "N1".to_string(),
        address: "0xmissing".to_string(),
        amount: amt("1"),
    };
    let dst = Participant {
        network_name: "N2".to_string(),
        address: s.wb.clone(),
        amount: amt("1"),
    };
    let ts = "0".to_string();
    let r = transaction_add(&mut s.store, &"swift".to_string(), src, dst, &ts);
    assert_eq!(r.unwrap_err(), Error::NotFound);
    let src2 = Participant {
        network_name: "N1".to_string(),
        address: s.wa.clone(),
        amount: amt("1"),
    };
    let dst2 = Participant {
        network_name: "N2".to_string(),
        address: s.wb.clone(),
        amount: amt("1"),
    };
    let r2 = transaction_add(&mut s.store, &"nobody".to_string(), src2, dst2, &ts);
    assert_eq!(r2.unwrap_err(), Error::NotFound);
}
