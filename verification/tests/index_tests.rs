use evm_pvp::amount::Amount;
use evm_pvp::errors::Error;
use evm_pvp::transaction::{
    NetworkTransaction, Participant, PaymentVsPayment, PvPstate, Transaction,
};
use evm_pvp::transactions::Transactions;
use evm_pvp::user::{RoleType, User};
use evm_pvp::users::Users;
use evm_pvp::wallets::Wallets;

#[test]
fn users_index_adds_and_removes() {
    let mut u = Users::get(None);
    u.add_user(&"alice".to_string()).unwrap();
    assert_eq!(u.add_user(&"alice".to_string()).unwrap_err(), Error::AlreadyExists);
    assert_eq!(u.remove_user(&"bob".to_string()).unwrap_err(), Error::NotFound);
    u.add_user(&"bob".to_string()).unwrap();
    u.remove_user(&"alice".to_string()).unwrap();
    assert_eq!(u.list, vec!["bob".to_string()]);
}

#[test]
fn wallets_index_records_creation_time() {
    let mut w = Wallets::get(None);
    w.add_address(&"0xabc".to_string(), &"123".to_string()).unwrap();
    assert_eq!(
        w.add_address(&"0xabc".to_string(), &"456".to_string()).unwrap_err(),
        Error::AlreadyExists
    );
    let list = w.get_list_address();
    assert_eq!(list.len(), 1);
    assert_eq!(list[0].address, "0xabc");
    assert_eq!(list[0].timestamp, "123");
    assert!(w.has(&"0xabc".to_string()));
    assert!(!w.has(&"0xdef".to_string()));
}

#[test]
fn transactions_index_finds_only_recorded_entries() {
    let mut idx = Transactions::get(None);
    idx.add_transaction(&"t1".to_string()).unwrap();
    assert_eq!(idx.add_transaction(&"t1".to_string()).unwrap_err(), Error::AlreadyExists);
    let table = vec![sample_tx("t1", PvPstate::AwaitingSourceReceive), sample_tx(
        "t2",
        PvPstate::Complete,
    )];
    assert!(idx.get_transaction(&"t1".to_string(), &table).is_some());
    // t2 sits in the table but is not indexed.
    assert!(idx.get_transaction(&"t2".to_string(), &table).is_none());
    assert_eq!(idx.get_transactions(), &vec!["t1".to_string()]);
}

#[test]
fn user_memberships_reject_duplicate_pairs_only() {
    let mut u = User::new(&"alice".to_string()).unwrap();
    let t = "t1".to_string();
    u.add_transaction(&t, RoleType::Participant).unwrap();
    assert_eq!(
        u.add_transaction(&t, RoleType::Participant).unwrap_err(),
        Error::AlreadyExists
    );
    // The same transaction under another role is a new membership.
    u.add_transaction(&t, RoleType::Orchestrator).unwrap();
    assert!(u.is_member_of(&t));
    assert!(u.has_role(&t, RoleType::Orchestrator));
    assert!(!u.has_role(&"t2".to_string(), RoleType::Participant));
    assert_eq!(u.get_transactions().len(), 2);
}

#[test]
fn empty_user_id_is_replaced_by_entropy() {
    let u = User::new(&"".to_string()).unwrap();
    assert_eq!(u.id.len(), 128);
    let v = User::get(&"".to_string(), None).unwrap();
    assert_ne!(u.id, v.id);
}

#[test]
fn process_reports_by_state() {
    let live = sample_tx("t1", PvPstate::AwaitingSourceReceive);
    assert_eq!(live.process(), "Processing transaction");
    let finalized = sample_tx("t2", PvPstate::AwaitingSourceReceiveFinalized);
    assert_eq!(finalized.process(), "Transaction already processed");
    let done = sample_tx("t3", PvPstate::Complete);
    assert_eq!(done.process(), "Transaction already processed");
    let bare = Transaction {
        id: "t4".to_string(),
        timestamp: "0".to_string(),
        payment_vs_payment: None,
        escrow_address: "0x0".to_string(),
    };
    assert_eq!(bare.process(), "Transaction not found");
}

fn sample_tx(id: &str, state: PvPstate) -> Transaction {
    Transaction {
        id: id.to_string(),
        timestamp: "0".to_string(),
        payment_vs_payment: Some(PaymentVsPayment {
            source: Participant {
                network_name: "N1".to_string(),
                address: "0xa".to_string(),
                amount: Amount::from_hex("1").unwrap(),
            },
            destination: Participant {
                network_name: "N2".to_string(),
                address: "0xb".to_string(),
                amount: Amount::from_hex("2").unwrap(),
            },
            state_machine: state,
            network_transactions: vec![NetworkTransaction {
                state,
                network_name: "N1".to_string(),
                tx_hash: "0xh".to_string(),
            }],
        }),
        escrow_address: "0xe".to_string(),
    }
}
