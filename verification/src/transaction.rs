//! The PvP transaction object.
//!
//! A transaction records the two legs of a payment-versus-payment exchange,
//! the escrow wallet that carries the value in flight, the state machine
//! position, and the append-only audit trail of committed legs.

use crate::amount::Amount;
use vstd::prelude::*;

verus! {

/// The states of the PvP exchange, linear but for the terminal pair.
#[derive(Clone, Copy, Debug, PartialEq, Eq, Structural)]
pub enum PvPstate {
    Init,
    AwaitingSourceReceive,
    AwaitingSourceReceiveFinalized,
    AwaitingDestinationReceive,
    AwaitingDestinationReceiveFinalized,
    AwaitingDestinationSend,
    AwaitingDestinationSendFinalized,
    AwaitingSourceSend,
    AwaitingSourceSendFinalized,
    Complete,
    Cancelled,
}

/// The position of a state along the linear order; `Cancelled` sits outside
/// the path.
pub open spec fn state_index(s: PvPstate) -> int {
    match s {
        PvPstate::Init => 0,
        PvPstate::AwaitingSourceReceive => 1,
        PvPstate::AwaitingSourceReceiveFinalized => 2,
        PvPstate::AwaitingDestinationReceive => 3,
        PvPstate::AwaitingDestinationReceiveFinalized => 4,
        PvPstate::AwaitingDestinationSend => 5,
        PvPstate::AwaitingDestinationSendFinalized => 6,
        PvPstate::AwaitingSourceSend => 7,
        PvPstate::AwaitingSourceSendFinalized => 8,
        PvPstate::Complete => 9,
        PvPstate::Cancelled => 10,
    }
}

/// One leg endpoint: an amount owed at an address on a network.
pub struct Participant {
    pub network_name: String,
    pub address: String,
    pub amount: Amount,
}

/// One audit-trail entry: a committed leg under the state that awaited it.
pub struct NetworkTransaction {
    pub state: PvPstate,
    pub network_name: String,
    pub tx_hash: String,
}

/// The payment-versus-payment body of a transaction.
pub struct PaymentVsPayment {
    pub source: Participant,
    pub destination: Participant,
    pub state_machine: PvPstate,
    pub network_transactions: Vec<NetworkTransaction>,
}

/// A persisted PvP transaction.
pub struct Transaction {
    pub id: String,
    pub timestamp: String,
    pub payment_vs_payment: Option<PaymentVsPayment>,
    pub escrow_address: String,
}

/// The first audit-trail index carrying `tx_hash`, or -1 if none does.
pub open spec fn audit_idx(s: Seq<NetworkTransaction>, tx_hash: Seq<char>) -> int
    decreases s.len(),
{
    if s.len() == 0 {
        -1
    } else if s[0].tx_hash@ == tx_hash {
        0
    } else {
        let r = audit_idx(s.drop_first(), tx_hash);
        if r == -1 {
            -1
        } else {
            r + 1
        }
    }
}

/// `audit_idx` finds the first matching entry, and -1 exactly when none
/// matches.
pub proof fn lemma_audit_idx(s: Seq<NetworkTransaction>, tx_hash: Seq<char>)
    ensures
        -1 <= audit_idx(s, tx_hash) < s.len(),
        audit_idx(s, tx_hash) >= 0 ==> s[audit_idx(s, tx_hash)].tx_hash@ == tx_hash,
        forall|j: int|
            0 <= j < s.len() && (#[trigger] s[j]).tx_hash@ == tx_hash ==> audit_idx(s, tx_hash)
                >= 0 && audit_idx(s, tx_hash) <= j,
    decreases s.len(),
{
    if s.len() > 0 && s[0].tx_hash@ != tx_hash {
        lemma_audit_idx(s.drop_first(), tx_hash);
        assert(forall|j: int| 1 <= j < s.len() ==> (#[trigger] s[j]) == s.drop_first()[j - 1]);
    }
}

/// Finds the position of the audit entry carrying `tx_hash`.
pub fn find_audit(trail: &Vec<NetworkTransaction>, tx_hash: &String) -> (r: Option<usize>)
    ensures
        match r {
            Some(i) => i < trail@.len() && audit_idx(trail@, tx_hash@) == i,
            None => audit_idx(trail@, tx_hash@) == -1,
        },
{
    proof {
        lemma_audit_idx(trail@, tx_hash@);
    }
    let mut i: usize = 0;
    while i < trail.len()
        invariant
            i <= trail@.len(),
            forall|j: int| 0 <= j < i ==> (#[trigger] trail@[j]).tx_hash@ != tx_hash@,
        decreases trail@.len() - i,
    {
        if trail[i].tx_hash.eq(tx_hash) {
            proof {
                lemma_audit_idx(trail@, tx_hash@);
            }
            return Some(i);
        }
        i = i + 1;
    }
    None
}

impl Transaction {
    /// The status line for this transaction: legs still await processing in
    /// every live state, finalized and terminal states report completion,
    /// and a transaction without a payment body reports as missing.
    pub fn process(&self) -> (r: &'static str)
        ensures
            match self.payment_vs_payment {
                Some(pvp) => if state_index(pvp.state_machine) == 0 || state_index(
                    pvp.state_machine,
                ) == 1 || state_index(pvp.state_machine) == 3 || state_index(pvp.state_machine)
                    == 5 || state_index(pvp.state_machine) == 7 {
                    r@ == "Processing transaction"@
                } else {
                    r@ == "Transaction already processed"@
                },
                None => r@ == "Transaction not found"@,
            },
    {
        match &self.payment_vs_payment {
            Some(pvp) => {
                match pvp.state_machine {
                    PvPstate::Init => "Processing transaction",
                    PvPstate::AwaitingSourceReceive => "Processing transaction",
                    PvPstate::AwaitingDestinationReceive => "Processing transaction",
                    PvPstate::AwaitingDestinationSend => "Processing transaction",
                    PvPstate::AwaitingSourceSend => "Processing transaction",
                    _ => "Transaction already processed",
                }
            },
            None => "Transaction not found",
        }
    }
}

} // verus!
