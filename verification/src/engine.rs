//! The PvP settlement engine.
//!
//! The engine drives the two-leg exchange over the persisted state: the
//! wallet, user and transaction tables with their flat indices.  The host
//! materializes a [`Store`] from the ledger, calls one handler, and
//! persists what changed.  Every handler validates the caller against the
//! ownership and membership records before it touches anything, and every
//! state change is all-or-nothing: a handler that returns an error leaves
//! the store as it found it.

use crate::amount::{pow256, Amount};
use crate::crypto;
use crate::errors::Error;
use crate::hexstr;
use crate::transaction::{
    audit_idx,
    state_index,
    NetworkTransaction,
    PaymentVsPayment,
    Participant,
    PvPstate,
    Transaction,
};
use crate::transactions::{find_tx, tx_idx, Transactions};
use crate::user::{has_pair, has_tx, RoleType, User};
use crate::users::Users;
use crate::wallet::{net_idx, str_has, Wallet};
use crate::wallets::Wallets;
use vstd::prelude::*;

verus! {

/// The persisted state of the engine: the three entity tables and their
/// flat indices.
pub struct Store {
    pub wallets: Vec<Wallet>,
    pub wallet_index: Wallets,
    pub users: Vec<User>,
    pub user_index: Users,
    pub transactions: Vec<Transaction>,
    pub tx_index: Transactions,
}

/// The first index of the wallet at `address` in a table, or -1 if none is
/// there.
pub open spec fn wallet_idx(s: Seq<Wallet>, address: Seq<char>) -> int
    decreases s.len(),
{
    if s.len() == 0 {
        -1
    } else if s[0].eth_address@ == address {
        0
    } else {
        let r = wallet_idx(s.drop_first(), address);
        if r == -1 {
            -1
        } else {
            r + 1
        }
    }
}

/// `wallet_idx` finds the first matching entry, and -1 exactly when none
/// matches.
pub proof fn lemma_wallet_idx(s: Seq<Wallet>, address: Seq<char>)
    ensures
        -1 <= wallet_idx(s, address) < s.len(),
        wallet_idx(s, address) >= 0 ==> s[wallet_idx(s, address)].eth_address@ == address,
        forall|j: int|
            0 <= j < s.len() && (#[trigger] s[j]).eth_address@ == address ==> wallet_idx(
                s,
                address,
            ) >= 0 && wallet_idx(s, address) <= j,
    decreases s.len(),
{
    if s.len() > 0 && s[0].eth_address@ != address {
        lemma_wallet_idx(s.drop_first(), address);
        assert(forall|j: int| 1 <= j < s.len() ==> (#[trigger] s[j]) == s.drop_first()[j - 1]);
    }
}

/// Finds the position of the wallet at `address` in a table.
pub fn find_wallet(table: &Vec<Wallet>, address: &String) -> (r: Option<usize>)
    ensures
        match r {
            Some(i) => i < table@.len() && wallet_idx(table@, address@) == i,
            None => wallet_idx(table@, address@) == -1,
        },
{
    proof {
        lemma_wallet_idx(table@, address@);
    }
    let mut i: usize = 0;
    while i < table.len()
        invariant
            i <= table@.len(),
            forall|j: int| 0 <= j < i ==> (#[trigger] table@[j]).eth_address@ != address@,
        decreases table@.len() - i,
    {
        if table[i].eth_address.eq(address) {
            proof {
                lemma_wallet_idx(table@, address@);
            }
            return Some(i);
        }
        i = i + 1;
    }
    None
}

/// The first index of the user with `id` in a table, or -1 if none has it.
pub open spec fn user_idx(s: Seq<User>, id: Seq<char>) -> int
    decreases s.len(),
{
    if s.len() == 0 {
        -1
    } else if s[0].id@ == id {
        0
    } else {
        let r = user_idx(s.drop_first(), id);
        if r == -1 {
            -1
        } else {
            r + 1
        }
    }
}

/// `user_idx` finds the first matching entry, and -1 exactly when none
/// matches.
pub proof fn lemma_user_idx(s: Seq<User>, id: Seq<char>)
    ensures
        -1 <= user_idx(s, id) < s.len(),
        user_idx(s, id) >= 0 ==> s[user_idx(s, id)].id@ == id,
        forall|j: int|
            0 <= j < s.len() && (#[trigger] s[j]).id@ == id ==> user_idx(s, id) >= 0 && user_idx(
                s,
                id,
            ) <= j,
    decreases s.len(),
{
    if s.len() > 0 && s[0].id@ != id {
        lemma_user_idx(s.drop_first(), id);
        assert(forall|j: int| 1 <= j < s.len() ==> (#[trigger] s[j]) == s.drop_first()[j - 1]);
    }
}

/// Finds the position of the user with `id` in a table.
pub fn find_user(table: &Vec<User>, id: &String) -> (r: Option<usize>)
    ensures
        match r {
            Some(i) => i < table@.len() && user_idx(table@, id@) == i,
            None => user_idx(table@, id@) == -1,
        },
{
    proof {
        lemma_user_idx(table@, id@);
    }
    let mut i: usize = 0;
    while i < table.len()
        invariant
            i <= table@.len(),
            forall|j: int| 0 <= j < i ==> (#[trigger] table@[j]).id@ != id@,
        decreases table@.len() - i,
    {
        if table[i].id.eq(id) {
            proof {
                lemma_user_idx(table@, id@);
            }
            return Some(i);
        }
        i = i + 1;
    }
    None
}

/// The leg parameters a commit must supply, as parsed by the host.
pub struct CommitRequest {
    pub tx_id: String,
    pub address: String,
    pub network_name: String,
    pub amount: Amount,
    pub escrow_address: String,
    pub tx_hash: Option<String>,
}

/// Whether a commit is accepted in this state.
pub open spec fn is_commit_state(s: PvPstate) -> bool {
    s == PvPstate::AwaitingSourceReceive || s == PvPstate::AwaitingDestinationReceive || s
        == PvPstate::AwaitingDestinationSend || s == PvPstate::AwaitingSourceSend
}

/// The wallet the caller must own to commit in this state.
pub open spec fn commit_required_wallet(
    s: PvPstate,
    pvp: PaymentVsPayment,
    escrow: Seq<char>,
) -> Seq<char> {
    if s == PvPstate::AwaitingSourceReceive {
        pvp.source.address@
    } else if s == PvPstate::AwaitingDestinationReceive {
        pvp.destination.address@
    } else {
        escrow
    }
}

/// The address a commit must supply in this state.
pub open spec fn commit_expected_addr(s: PvPstate, pvp: PaymentVsPayment) -> Seq<char> {
    if s == PvPstate::AwaitingSourceReceive || s == PvPstate::AwaitingSourceSend {
        pvp.source.address@
    } else {
        pvp.destination.address@
    }
}

/// The network name a commit must supply in this state; it is also the
/// network recorded on the audit entry.
pub open spec fn commit_expected_net(s: PvPstate, pvp: PaymentVsPayment) -> Seq<char> {
    if s == PvPstate::AwaitingSourceReceive || s == PvPstate::AwaitingDestinationSend {
        pvp.source.network_name@
    } else {
        pvp.destination.network_name@
    }
}

/// The amount a commit must supply in this state.
pub open spec fn commit_expected_amt(s: PvPstate, pvp: PaymentVsPayment) -> Amount {
    if s == PvPstate::AwaitingSourceReceive || s == PvPstate::AwaitingDestinationSend {
        pvp.source.amount
    } else {
        pvp.destination.amount
    }
}

/// Whether the leg's hash is supplied by the caller (an on-chain hash) or
/// drawn from host entropy (an internal audit key).
pub open spec fn commit_external(s: PvPstate) -> bool {
    s == PvPstate::AwaitingSourceReceive || s == PvPstate::AwaitingDestinationSend
}

/// The waiting state a commit advances to.
pub open spec fn commit_next(s: PvPstate) -> PvPstate {
    if s == PvPstate::AwaitingSourceReceive {
        PvPstate::AwaitingSourceReceiveFinalized
    } else if s == PvPstate::AwaitingDestinationReceive {
        PvPstate::AwaitingDestinationReceiveFinalized
    } else if s == PvPstate::AwaitingDestinationSend {
        PvPstate::AwaitingDestinationSendFinalized
    } else {
        PvPstate::AwaitingSourceSendFinalized
    }
}

/// The transaction after a successful commit: one audit entry appended
/// under the committing state, the machine advanced to the finalized
/// waiting state, everything else kept.
pub open spec fn committed(
    old_t: &Transaction,
    new_t: &Transaction,
    s: PvPstate,
    net: Seq<char>,
    h: Seq<char>,
) -> bool {
    let pvp = old_t.payment_vs_payment.unwrap();
    let np = new_t.payment_vs_payment.unwrap();
    &&& new_t.id == old_t.id
    &&& new_t.timestamp == old_t.timestamp
    &&& new_t.escrow_address == old_t.escrow_address
    &&& new_t.payment_vs_payment is Some
    &&& np.source == pvp.source
    &&& np.destination == pvp.destination
    &&& np.state_machine == commit_next(s)
    &&& np.network_transactions@.len() == pvp.network_transactions@.len() + 1
    &&& np.network_transactions@.take(pvp.network_transactions@.len() as int)
        == pvp.network_transactions@
    &&& np.network_transactions@.last().state == s
    &&& np.network_transactions@.last().network_name@ == net
    &&& np.network_transactions@.last().tx_hash@ == h
}

/// The contract of [`commit_leg`]: the full decision ladder of a commit.
pub open spec fn commit_spec(
    old_t: &Transaction,
    new_t: &Transaction,
    user: &User,
    req: &CommitRequest,
    r: Result<String, Error>,
) -> bool {
    if !has_tx(user.transactions@, old_t.id@) {
        r == Result::<String, Error>::Err(Error::Unauthorized) && new_t == old_t
    } else {
        match old_t.payment_vs_payment {
            None => r == Result::<String, Error>::Err(Error::Internal) && new_t == old_t,
            Some(pvp) => {
                let s = pvp.state_machine;
                if s == PvPstate::Complete {
                    new_t == old_t && match r {
                        Ok(m) => m@ == "transaction is already complete"@,
                        Err(_) => false,
                    }
                } else if !is_commit_state(s) {
                    r == Result::<String, Error>::Err(Error::WrongState) && new_t == old_t
                } else if !str_has(
                    user.wallets@,
                    commit_required_wallet(s, pvp, old_t.escrow_address@),
                ) {
                    r == Result::<String, Error>::Err(Error::Unauthorized) && new_t == old_t
                } else if req.address@ != commit_expected_addr(s, pvp) || req.network_name@
                    != commit_expected_net(s, pvp) || req.amount != commit_expected_amt(s, pvp)
                    || req.escrow_address@ != old_t.escrow_address@ {
                    r == Result::<String, Error>::Err(Error::Mismatch) && new_t == old_t
                } else if commit_external(s) && req.tx_hash is None {
                    r == Result::<String, Error>::Err(Error::BadRequest) && new_t == old_t
                } else {
                    match r {
                        Ok(h) => {
                            &&& committed(old_t, new_t, s, commit_expected_net(s, pvp), h@)
                            &&& if commit_external(s) {
                                h@ == req.tx_hash.unwrap()@
                            } else {
                                h@.len() == 66 && h@[0] == '0' && h@[1] == 'x'
                            }
                        },
                        Err(e) => e == Error::Upstream && !commit_external(s) && new_t == old_t,
                    }
                }
            },
        }
    }
}

/// Validates and records one committed leg on a transaction.
///
/// The caller must be a member of the transaction and own the wallet the
/// current state requires; the supplied leg parameters must match the
/// stored ones.  On success the audit trail grows by one entry under the
/// current state and the machine advances to the finalized waiting state;
/// the returned string is the audit key of the new entry.
pub fn commit_leg(user: &User, tx: &mut Transaction, req: &CommitRequest) -> (r: Result<
    String,
    Error,
>)
    ensures
        commit_spec(old(tx), final(tx), user, req, r),
{
    if !user.is_member_of(&tx.id) {
        return Err(Error::Unauthorized);
    }
    let escrow_address = tx.escrow_address.clone();
    match &mut tx.payment_vs_payment {
        None => Err(Error::Internal),
        Some(pvp) => {
            let s = pvp.state_machine;
            match s {
                PvPstate::Complete => Ok(String::from_str("transaction is already complete")),
                PvPstate::AwaitingSourceReceive
                | PvPstate::AwaitingDestinationReceive
                | PvPstate::AwaitingDestinationSend
                | PvPstate::AwaitingSourceSend => {
                    let required: String = if matches!(s, PvPstate::AwaitingSourceReceive) {
                        pvp.source.address.clone()
                    } else if matches!(s, PvPstate::AwaitingDestinationReceive) {
                        pvp.destination.address.clone()
                    } else {
                        escrow_address.clone()
                    };
                    if !user.owns_wallet(&required) {
                        return Err(Error::Unauthorized);
                    }
                    let expected_addr: &String = if matches!(s, PvPstate::AwaitingSourceReceive)
                        || matches!(s, PvPstate::AwaitingSourceSend) {
                        &pvp.source.address
                    } else {
                        &pvp.destination.address
                    };
                    if !req.address.eq(expected_addr) {
                        return Err(Error::Mismatch);
                    }
                    let expected_net: &String = if matches!(s, PvPstate::AwaitingSourceReceive)
                        || matches!(s, PvPstate::AwaitingDestinationSend) {
                        &pvp.source.network_name
                    } else {
                        &pvp.destination.network_name
                    };
                    if !req.network_name.eq(expected_net) {
                        return Err(Error::Mismatch);
                    }
                    let expected_amt: Amount = if matches!(s, PvPstate::AwaitingSourceReceive)
                        || matches!(s, PvPstate::AwaitingDestinationSend) {
                        pvp.source.amount
                    } else {
                        pvp.destination.amount
                    };
                    if !(req.amount == expected_amt) {
                        return Err(Error::Mismatch);
                    }
                    if !req.escrow_address.eq(&escrow_address) {
                        return Err(Error::Mismatch);
                    }
                    let external = matches!(s, PvPstate::AwaitingSourceReceive) || matches!(
                        s,
                        PvPstate::AwaitingDestinationSend,
                    );
                    let hash: String = if external {
                        match &req.tx_hash {
                            Some(h) => h.clone(),
                            None => {
                                return Err(Error::BadRequest);
                            },
                        }
                    } else {
                        let b = match crypto::random_bytes(32) {
                            Some(b) => b,
                            None => {
                                return Err(Error::Upstream);
                            },
                        };
                        let mut h = String::from_str("0x");
                        proof {
                            reveal_strlit("0x");
                            hexstr::lemma_hex_of_bytes_len(b@);
                        }
                        let enc = hexstr::encode_bytes(&b);
                        h.append(enc.as_str());
                        h
                    };
                    let net_name = if matches!(s, PvPstate::AwaitingSourceReceive) || matches!(
                        s,
                        PvPstate::AwaitingDestinationSend,
                    ) {
                        pvp.source.network_name.clone()
                    } else {
                        pvp.destination.network_name.clone()
                    };
                    let next: PvPstate = match s {
                        PvPstate::AwaitingSourceReceive
                            => PvPstate::AwaitingSourceReceiveFinalized,
                        PvPstate::AwaitingDestinationReceive
                            => PvPstate::AwaitingDestinationReceiveFinalized,
                        PvPstate::AwaitingDestinationSend
                            => PvPstate::AwaitingDestinationSendFinalized,
                        _ => PvPstate::AwaitingSourceSendFinalized,
                    };
                    let ghost old_audit = pvp.network_transactions@;
                    pvp.network_transactions.push(
                        NetworkTransaction {
                            state: s,
                            network_name: net_name,
                            tx_hash: hash.clone(),
                        },
                    );
                    pvp.state_machine = next;
                    proof {
                        assert(pvp.network_transactions@.take(old_audit.len() as int)
                            =~= old_audit);
                    }
                    Ok(hash)
                },
                _ => Err(Error::WrongState),
            }
        },
    }
}

/// Whether an apply is accepted in this state.
pub open spec fn is_apply_state(s: PvPstate) -> bool {
    s == PvPstate::AwaitingSourceReceiveFinalized || s
        == PvPstate::AwaitingDestinationReceiveFinalized || s
        == PvPstate::AwaitingDestinationSendFinalized || s
        == PvPstate::AwaitingSourceSendFinalized
}

/// The state the matching audit entry must have been committed under.
pub open spec fn awaited_state(s: PvPstate) -> PvPstate {
    if s == PvPstate::AwaitingSourceReceiveFinalized {
        PvPstate::AwaitingSourceReceive
    } else if s == PvPstate::AwaitingDestinationReceiveFinalized {
        PvPstate::AwaitingDestinationReceive
    } else if s == PvPstate::AwaitingDestinationSendFinalized {
        PvPstate::AwaitingDestinationSend
    } else {
        PvPstate::AwaitingSourceSend
    }
}

/// The state an apply advances to.
pub open spec fn apply_next(s: PvPstate) -> PvPstate {
    if s == PvPstate::AwaitingSourceReceiveFinalized {
        PvPstate::AwaitingDestinationReceive
    } else if s == PvPstate::AwaitingDestinationReceiveFinalized {
        PvPstate::AwaitingDestinationSend
    } else if s == PvPstate::AwaitingDestinationSendFinalized {
        PvPstate::AwaitingSourceSend
    } else {
        PvPstate::Complete
    }
}

/// On receive legs value flows into the escrow; on send legs out of it.
pub open spec fn apply_escrow_mints(s: PvPstate) -> bool {
    s == PvPstate::AwaitingSourceReceiveFinalized || s
        == PvPstate::AwaitingDestinationReceiveFinalized
}

/// The network on which this leg settles.
pub open spec fn apply_leg_net(s: PvPstate, pvp: PaymentVsPayment) -> Seq<char> {
    if s == PvPstate::AwaitingSourceReceiveFinalized || s
        == PvPstate::AwaitingSourceSendFinalized {
        pvp.source.network_name@
    } else {
        pvp.destination.network_name@
    }
}

/// The amount this leg settles.
pub open spec fn apply_leg_amt(s: PvPstate, pvp: PaymentVsPayment) -> Amount {
    if s == PvPstate::AwaitingSourceReceiveFinalized || s
        == PvPstate::AwaitingSourceSendFinalized {
        pvp.source.amount
    } else {
        pvp.destination.amount
    }
}

/// The participant wallet on the other side of this leg.
pub open spec fn apply_participant_addr(s: PvPstate, pvp: PaymentVsPayment) -> Seq<char> {
    if s == PvPstate::AwaitingSourceReceiveFinalized || s
        == PvPstate::AwaitingDestinationSendFinalized {
        pvp.source.address@
    } else {
        pvp.destination.address@
    }
}

/// The transaction after a successful apply: the matching audit entry moved
/// to `Complete`, the machine advanced, everything else kept.
pub open spec fn applied_tx(
    old_t: &Transaction,
    new_t: &Transaction,
    k: int,
    next: PvPstate,
) -> bool {
    let pvp = old_t.payment_vs_payment.unwrap();
    let np = new_t.payment_vs_payment.unwrap();
    &&& new_t.id == old_t.id
    &&& new_t.timestamp == old_t.timestamp
    &&& new_t.escrow_address == old_t.escrow_address
    &&& new_t.payment_vs_payment is Some
    &&& np.source == pvp.source
    &&& np.destination == pvp.destination
    &&& np.state_machine == next
    &&& np.network_transactions@.len() == pvp.network_transactions@.len()
    &&& np.network_transactions@[k].state == PvPstate::Complete
    &&& np.network_transactions@[k].network_name == pvp.network_transactions@[k].network_name
    &&& np.network_transactions@[k].tx_hash == pvp.network_transactions@[k].tx_hash
    &&& forall|j: int|
        0 <= j < pvp.network_transactions@.len() && j != k ==> np.network_transactions@[j]
            == pvp.network_transactions@[j]
}

/// The contract of [`apply_leg`]: the full decision ladder of an apply.
pub open spec fn apply_spec(
    old_t: &Transaction,
    new_t: &Transaction,
    old_ws: Seq<Wallet>,
    new_ws: Seq<Wallet>,
    user: &User,
    tx_hash: Seq<char>,
    r: Result<String, Error>,
) -> bool {
    let unchanged = new_t == old_t && new_ws == old_ws;
    if !has_tx(user.transactions@, old_t.id@) {
        r == Result::<String, Error>::Err(Error::Unauthorized) && unchanged
    } else {
        match old_t.payment_vs_payment {
            None => r == Result::<String, Error>::Err(Error::Internal) && unchanged,
            Some(pvp) => {
                let s = pvp.state_machine;
                let k = audit_idx(pvp.network_transactions@, tx_hash);
                if s == PvPstate::Complete {
                    unchanged && match r {
                        Ok(m) => m@ == "transaction is already complete"@,
                        Err(_) => false,
                    }
                } else if !is_apply_state(s) {
                    r == Result::<String, Error>::Err(Error::WrongState) && unchanged
                } else if k == -1 {
                    r == Result::<String, Error>::Err(Error::NotFound) && unchanged
                } else if pvp.network_transactions@[k].state != awaited_state(s) {
                    r == Result::<String, Error>::Err(Error::WrongState) && unchanged
                } else {
                    let ei = wallet_idx(old_ws, old_t.escrow_address@);
                    let pi = wallet_idx(old_ws, apply_participant_addr(s, pvp));
                    if ei == -1 || pi == -1 {
                        r == Result::<String, Error>::Err(Error::NotFound) && unchanged
                    } else if ei == pi {
                        r == Result::<String, Error>::Err(Error::Internal) && unchanged
                    } else {
                        let net = apply_leg_net(s, pvp);
                        let amt = apply_leg_amt(s, pvp).as_nat();
                        let eni = net_idx(old_ws[ei].networks@, net);
                        let pni = net_idx(old_ws[pi].networks@, net);
                        if eni == -1 || pni == -1 {
                            r == Result::<String, Error>::Err(Error::NotFound) && unchanged
                        } else {
                            let efree = old_ws[ei].networks@[eni].free.as_nat();
                            let pfree = old_ws[pi].networks@[pni].free.as_nat();
                            if apply_escrow_mints(s) {
                                if efree + amt >= pow256() {
                                    r == Result::<String, Error>::Err(Error::Overflow)
                                        && unchanged
                                } else if pfree < amt {
                                    r == Result::<String, Error>::Err(Error::Underflow)
                                        && unchanged
                                } else {
                                    apply_ok(
                                        old_t,
                                        new_t,
                                        old_ws,
                                        new_ws,
                                        k,
                                        s,
                                        ei,
                                        pi,
                                        eni,
                                        pni,
                                        efree + amt,
                                        (pfree - amt) as nat,
                                        r,
                                    )
                                }
                            } else {
                                if efree < amt {
                                    r == Result::<String, Error>::Err(Error::Underflow)
                                        && unchanged
                                } else if pfree + amt >= pow256() {
                                    r == Result::<String, Error>::Err(Error::Overflow)
                                        && unchanged
                                } else {
                                    apply_ok(
                                        old_t,
                                        new_t,
                                        old_ws,
                                        new_ws,
                                        k,
                                        s,
                                        ei,
                                        pi,
                                        eni,
                                        pni,
                                        (efree - amt) as nat,
                                        pfree + amt,
                                        r,
                                    )
                                }
                            }
                        }
                    }
                }
            },
        }
    }
}

/// The success case of an apply: the audit entry completes, the machine
/// advances, and exactly the two wallets' free balances move.
pub open spec fn apply_ok(
    old_t: &Transaction,
    new_t: &Transaction,
    old_ws: Seq<Wallet>,
    new_ws: Seq<Wallet>,
    k: int,
    s: PvPstate,
    ei: int,
    pi: int,
    eni: int,
    pni: int,
    new_efree: nat,
    new_pfree: nat,
    r: Result<String, Error>,
) -> bool {
    &&& applied_tx(old_t, new_t, k, apply_next(s))
    &&& new_ws.len() == old_ws.len()
    &&& crate::wallet::balance_updated(
        &old_ws[ei],
        &new_ws[ei],
        eni,
        new_efree,
        old_ws[ei].networks@[eni].locked.as_nat(),
    )
    &&& crate::wallet::balance_updated(
        &old_ws[pi],
        &new_ws[pi],
        pni,
        new_pfree,
        old_ws[pi].networks@[pni].locked.as_nat(),
    )
    &&& forall|j: int| 0 <= j < old_ws.len() && j != ei && j != pi ==> new_ws[j] == old_ws[j]
    &&& match r {
        Ok(m) => m@ == old_t.id@,
        Err(_) => false,
    }
}

/// Finalizes one committed leg: completes the matching audit entry, moves
/// the leg's amount between the escrow and the participant wallet, and
/// advances the state machine.
///
/// The caller must be a member of the transaction; the audit entry named
/// by `tx_hash` must exist and still carry the state the current machine
/// position awaits.  Balance effects and the state change land together or
/// not at all.
#[verifier::rlimit(60)]
pub fn apply_leg(
    user: &User,
    tx: &mut Transaction,
    wallets: &mut Vec<Wallet>,
    tx_hash: &String,
) -> (r: Result<String, Error>)
    ensures
        apply_spec(old(tx), final(tx), old(wallets)@, final(wallets)@, user, tx_hash@, r),
{
    if !user.is_member_of(&tx.id) {
        return Err(Error::Unauthorized);
    }
    let s: PvPstate;
    let k: usize;
    let net: String;
    let amt: Amount;
    let part_addr: String;
    match &tx.payment_vs_payment {
        None => {
            return Err(Error::Internal);
        },
        Some(pvp) => {
            s = pvp.state_machine;
            if matches!(s, PvPstate::Complete) {
                return Ok(String::from_str("transaction is already complete"));
            }
            let is_apply = matches!(s, PvPstate::AwaitingSourceReceiveFinalized) || matches!(
                s,
                PvPstate::AwaitingDestinationReceiveFinalized,
            ) || matches!(s, PvPstate::AwaitingDestinationSendFinalized) || matches!(
                s,
                PvPstate::AwaitingSourceSendFinalized,
            );
            if !is_apply {
                return Err(Error::WrongState);
            }
            k = match crate::transaction::find_audit(&pvp.network_transactions, tx_hash) {
                Some(k) => k,
                None => {
                    return Err(Error::NotFound);
                },
            };
            let awaited: PvPstate = match s {
                PvPstate::AwaitingSourceReceiveFinalized => PvPstate::AwaitingSourceReceive,
                PvPstate::AwaitingDestinationReceiveFinalized
                    => PvPstate::AwaitingDestinationReceive,
                PvPstate::AwaitingDestinationSendFinalized => PvPstate::AwaitingDestinationSend,
                _ => PvPstate::AwaitingSourceSend,
            };
            if !(pvp.network_transactions[k].state == awaited) {
                return Err(Error::WrongState);
            }
            net = if matches!(s, PvPstate::AwaitingSourceReceiveFinalized) || matches!(
                s,
                PvPstate::AwaitingSourceSendFinalized,
            ) {
                pvp.source.network_name.clone()
            } else {
                pvp.destination.network_name.clone()
            };
            amt = if matches!(s, PvPstate::AwaitingSourceReceiveFinalized) || matches!(
                s,
                PvPstate::AwaitingSourceSendFinalized,
            ) {
                pvp.source.amount
            } else {
                pvp.destination.amount
            };
            part_addr = if matches!(s, PvPstate::AwaitingSourceReceiveFinalized) || matches!(
                s,
                PvPstate::AwaitingDestinationSendFinalized,
            ) {
                pvp.source.address.clone()
            } else {
                pvp.destination.address.clone()
            };
        },
    }
    let mints = matches!(s, PvPstate::AwaitingSourceReceiveFinalized) || matches!(
        s,
        PvPstate::AwaitingDestinationReceiveFinalized,
    );
    let ei = match find_wallet(wallets, &tx.escrow_address) {
        Some(i) => i,
        None => {
            return Err(Error::NotFound);
        },
    };
    let pi = match find_wallet(wallets, &part_addr) {
        Some(i) => i,
        None => {
            return Err(Error::NotFound);
        },
    };
    if ei == pi {
        return Err(Error::Internal);
    }
    let eni = match wallets[ei].find_network(&net) {
        Some(i) => i,
        None => {
            return Err(Error::NotFound);
        },
    };
    let pni = match wallets[pi].find_network(&net) {
        Some(i) => i,
        None => {
            return Err(Error::NotFound);
        },
    };
    if mints {
        if wallets[ei].networks[eni].free.checked_add(amt).is_none() {
            return Err(Error::Overflow);
        }
        if wallets[pi].networks[pni].free.lt(&amt) {
            return Err(Error::Underflow);
        }
    } else {
        if wallets[ei].networks[eni].free.lt(&amt) {
            return Err(Error::Underflow);
        }
        if wallets[pi].networks[pni].free.checked_add(amt).is_none() {
            return Err(Error::Overflow);
        }
    }
    let er = if mints {
        wallets[ei].mint(&net, &amt)
    } else {
        wallets[ei].burn(&net, &amt)
    };
    match er {
        Ok(()) => (),
        Err(_) => {
            proof {
                assert(false);
            }
            return Err(Error::Internal);
        },
    }
    let pr = if mints {
        wallets[pi].burn(&net, &amt)
    } else {
        wallets[pi].mint(&net, &amt)
    };
    match pr {
        Ok(()) => (),
        Err(_) => {
            proof {
                assert(false);
            }
            return Err(Error::Internal);
        },
    }
    let next: PvPstate = match s {
        PvPstate::AwaitingSourceReceiveFinalized => PvPstate::AwaitingDestinationReceive,
        PvPstate::AwaitingDestinationReceiveFinalized => PvPstate::AwaitingDestinationSend,
        PvPstate::AwaitingDestinationSendFinalized => PvPstate::AwaitingSourceSend,
        _ => PvPstate::Complete,
    };
    match &mut tx.payment_vs_payment {
        None => {
            proof {
                assert(false);
            }
            return Err(Error::Internal);
        },
        Some(pvp) => {
            let entry = &mut pvp.network_transactions[k];
            entry.state = PvPstate::Complete;
            pvp.state_machine = next;
        },
    }
    Ok(tx.id.clone())
}

/// Everything of the store except the wallet table and its index is equal.
pub open spec fn unchanged_users_txs(a: &Store, b: &Store) -> bool {
    &&& a.users == b.users
    &&& a.user_index == b.user_index
    &&& a.transactions == b.transactions
    &&& a.tx_index == b.tx_index
}

/// Everything of the store except the transaction table is equal.
pub open spec fn unchanged_but_transactions(a: &Store, b: &Store) -> bool {
    &&& a.wallets == b.wallets
    &&& a.wallet_index == b.wallet_index
    &&& a.users == b.users
    &&& a.user_index == b.user_index
    &&& a.tx_index == b.tx_index
}

/// Creates a wallet from an optional secret key, records it in the wallet
/// table and the index, and returns its address.
///
/// Fails `BadRequest` on an unusable secret, `Upstream` on an entropy
/// failure, and `AlreadyExists` when the derived address is already
/// recorded.
pub fn wallet_add(store: &mut Store, secret: Option<&String>, timestamp: &String) -> (r: Result<
    String,
    Error,
>)
    ensures
        secret matches Some(s) ==> (r is Ok <==> hexstr::bytes_of_hex_ok(s@)
            && crypto::secp256k1_scalar_ok(hexstr::bytes_of_hex(s@)) && !crate::wallets::has_address(
            old(store).wallet_index.list@,
            derived_address_chars(s@),
        ) && wallet_idx(old(store).wallets@, derived_address_chars(s@)) == -1),
        match r {
            Ok(a) => {
                &&& wallet_idx(old(store).wallets@, a@) == -1
                &&& !crate::wallets::has_address(old(store).wallet_index.list@, a@)
                &&& (secret matches Some(s) ==> a@ == derived_address_chars(s@))
                &&& final(store).wallets@.len() == old(store).wallets@.len() + 1
                &&& final(store).wallets@.take(old(store).wallets@.len() as int) == old(store).wallets@
                &&& wallet_created(final(store).wallets@.last(), secret)
                &&& final(store).wallets@.last().eth_address@ == a@
                &&& final(store).wallet_index.list@.len() == old(store).wallet_index.list@.len()
                    + 1
                &&& final(store).wallet_index.list@.last().address@ == a@
                &&& final(store).wallet_index.list@.last().timestamp@ == timestamp@
                &&& final(store).wallet_index.list@.take(
                    old(store).wallet_index.list@.len() as int,
                ) == old(store).wallet_index.list@
                &&& unchanged_users_txs(old(store), final(store))
            },
            Err(e) => {
                &&& *final(store) == *old(store)
                &&& match secret {
                    Some(s) => if !hexstr::bytes_of_hex_ok(s@) || !crypto::secp256k1_scalar_ok(
                        hexstr::bytes_of_hex(s@),
                    ) {
                        e == Error::BadRequest
                    } else {
                        e == Error::AlreadyExists && (crate::wallets::has_address(
                            old(store).wallet_index.list@,
                            derived_address_chars(s@),
                        ) || wallet_idx(old(store).wallets@, derived_address_chars(s@)) >= 0)
                    },
                    None => e == Error::Upstream || e == Error::AlreadyExists,
                }
            },
        },
{
    let kp = match crate::wallet::generate_keypair(secret) {
        Ok(kp) => kp,
        Err(e) => {
            return Err(e);
        },
    };
    proof {
        if secret is Some {
            hexstr::lemma_hex_round_trip(
                crypto::secp256k1_pubkey_of(hexstr::bytes_of_hex(secret.unwrap()@)),
            );
        } else {
            let sb = choose|sb: Seq<u8>|
                #![auto]
                sb.len() == 32 && kp.0@ == hexstr::hex_of_bytes(sb) && kp.1@
                    == hexstr::hex_of_bytes(crypto::secp256k1_pubkey_of(sb))
                    && crypto::secp256k1_pubkey_of(sb).len() == 65;
            hexstr::lemma_hex_round_trip(crypto::secp256k1_pubkey_of(sb));
        }
    }
    let w = match Wallet::new(&kp.0, &kp.1) {
        Ok(w) => w,
        Err(_) => {
            proof {
                assert(false);
            }
            return Err(Error::BadRequest);
        },
    };
    let addr = w.get_eth_address();
    proof {
        if secret is Some {
            assert(addr@ == derived_address_chars(secret.unwrap()@));
        }
    }
    if store.wallet_index.has(&addr) {
        return Err(Error::AlreadyExists);
    }
    if find_wallet(&store.wallets, &addr).is_some() {
        return Err(Error::AlreadyExists);
    }
    store.wallets.push(w);
    match store.wallet_index.add_address(&addr, timestamp) {
        Ok(()) => (),
        Err(_) => {
            proof {
                assert(false);
            }
            return Err(Error::AlreadyExists);
        },
    }
    proof {
        assert(final(store).wallets@.take(old(store).wallets@.len() as int) =~= old(store).wallets@);
    }
    Ok(addr)
}

/// The checksummed address a hex secret key derives, through its public
/// key.
pub open spec fn derived_address_chars(secret: Seq<char>) -> Seq<char> {
    crate::address::eth_address_chars(
        crypto::secp256k1_pubkey_of(hexstr::bytes_of_hex(secret)),
    )
}

/// A freshly created wallet: empty books and back-references, with the
/// address derived from the public key, which in turn comes from the given
/// or generated secret.
pub open spec fn wallet_created(w: Wallet, secret: Option<&String>) -> bool {
    &&& w.networks@.len() == 0
    &&& w.users@.len() == 0
    &&& w.transactions@.len() == 0
    &&& w.eth_address@ == crate::address::eth_address_chars(
        hexstr::bytes_of_hex(w.public_key@),
    )
    &&& match secret {
        Some(s) => w.secret_key@ == s@ && w.public_key@ == hexstr::hex_of_bytes(
            crypto::secp256k1_pubkey_of(hexstr::bytes_of_hex(s@)),
        ),
        None => exists|sb: Seq<u8>|
            #![auto]
            sb.len() == 32 && w.secret_key@ == hexstr::hex_of_bytes(sb) && w.public_key@
                == hexstr::hex_of_bytes(crypto::secp256k1_pubkey_of(sb)),
    }
}

/// Registers the authenticated sender as a user: the user record is
/// created if no record carries the id yet, and the id joins the index.
/// An empty sender id is replaced by a fresh random one.
///
/// Fails `AlreadyExists` when the id is already indexed, and `Upstream`
/// when a fresh id was needed and entropy failed.
pub fn user_add(store: &mut Store, sender: &String) -> (r: Result<(), Error>)
    ensures
        ({
            let fresh = user_idx(old(store).users@, sender@) == -1;
            match r {
                Ok(()) => {
                    &&& final(store).user_index.list@.len() == old(store).user_index.list@.len() + 1
                    &&& final(store).user_index.list@.take(
                        old(store).user_index.list@.len() as int,
                    ) == old(store).user_index.list@
                    &&& !str_has(
                        old(store).user_index.list@,
                        final(store).user_index.list@.last()@,
                    )
                    &&& if fresh {
                        &&& final(store).users@.len() == old(store).users@.len() + 1
                        &&& final(store).users@.take(old(store).users@.len() as int) == old(store).users@
                        &&& final(store).users@.last().transactions@.len() == 0
                        &&& final(store).users@.last().wallets@.len() == 0
                        &&& final(store).user_index.list@.last()@ == final(store).users@.last().id@
                        &&& (sender@.len() > 0 ==> final(store).users@.last().id@ == sender@)
                    } else {
                        final(store).users == old(store).users && final(store).user_index.list@.last()@ == sender@
                    }
                    &&& final(store).wallets == old(store).wallets
                    &&& final(store).wallet_index == old(store).wallet_index
                    &&& final(store).transactions == old(store).transactions
                    &&& final(store).tx_index == old(store).tx_index
                },
                Err(e) => {
                    &&& *final(store) == *old(store)
                    &&& (sender@.len() > 0 ==> e == Error::AlreadyExists && str_has(
                        old(store).user_index.list@,
                        sender@,
                    ))
                    &&& (sender@.len() == 0 ==> e == Error::AlreadyExists || e == Error::Upstream)
                },
            }
        }),
{
    let fresh = find_user(&store.users, sender).is_none();
    let created: Option<User> = if fresh {
        match User::new(sender) {
            Ok(u) => Some(u),
            Err(e) => {
                return Err(e);
            },
        }
    } else {
        None
    };
    let uid: String = match &created {
        Some(u) => u.id.clone(),
        None => sender.clone(),
    };
    proof {
        crate::wallet::lemma_str_idx(store.user_index.list@, uid@);
    }
    if crate::wallet::find_str(&store.user_index.list, &uid).is_some() {
        return Err(Error::AlreadyExists);
    }
    match created {
        Some(u) => {
            store.users.push(u);
        },
        None => (),
    }
    match store.user_index.add_user(&uid) {
        Ok(()) => (),
        Err(_) => {
            proof {
                assert(false);
            }
            return Err(Error::AlreadyExists);
        },
    }
    proof {
        assert(final(store).user_index.list@.take(old(store).user_index.list@.len() as int)
            =~= old(store).user_index.list@);
        if user_idx(old(store).users@, sender@) == -1 {
            assert(final(store).users@.take(old(store).users@.len() as int) =~= old(store).users@);
        }
    }
    Ok(())
}

/// Links a wallet to the authenticated sender: the wallet joins the user's
/// list and the user joins the wallet's owners, both or neither.
///
/// Fails `NotFound` when the user or the wallet is missing, and
/// `AlreadyExists` when either side already records the link.
pub fn user_add_wallet(store: &mut Store, sender: &String, eth_address: &String) -> (r: Result<
    (),
    Error,
>)
    ensures
        ({
            let ui = user_idx(old(store).users@, sender@);
            let wi = wallet_idx(old(store).wallets@, eth_address@);
            match r {
                Ok(()) => ui >= 0 && wi >= 0 && user_add_wallet_ok(
                    old(store),
                    final(store),
                    ui,
                    wi,
                ),
                Err(e) => {
                    &&& store_unchanged(old(store), final(store))
                    &&& if ui == -1 || wi == -1 {
                        e == Error::NotFound
                    } else {
                        e == Error::AlreadyExists && (str_has(
                            old(store).users@[ui].wallets@,
                            eth_address@,
                        ) || str_has(old(store).wallets@[wi].users@, sender@))
                    }
                },
            }
        }),
{
    let ui = match find_user(&store.users, sender) {
        Some(i) => i,
        None => {
            return Err(Error::NotFound);
        },
    };
    let wi = match find_wallet(&store.wallets, eth_address) {
        Some(i) => i,
        None => {
            return Err(Error::NotFound);
        },
    };
    proof {
        lemma_user_idx(old(store).users@, sender@);
        lemma_wallet_idx(old(store).wallets@, eth_address@);
    }
    let r = store.users[ui].add_wallet(&mut store.wallets[wi]);
    proof {
        if r is Err {
            assert(store.users@ =~= old(store).users@);
            assert(store.wallets@ =~= old(store).wallets@);
        }
    }
    r
}

/// The store after a successful wallet link: both sides of the link
/// written at the resolved positions, everything else kept.
pub open spec fn user_add_wallet_ok(old_s: &Store, new_s: &Store, ui: int, wi: int) -> bool {
    &&& new_s.users@.len() == old_s.users@.len()
    &&& linked(&old_s.users@[ui], &new_s.users@[ui], &old_s.wallets@[wi], &new_s.wallets@[wi])
    &&& forall|j: int|
        0 <= j < old_s.users@.len() && j != ui ==> new_s.users@[j] == old_s.users@[j]
    &&& new_s.wallets@.len() == old_s.wallets@.len()
    &&& forall|j: int|
        0 <= j < old_s.wallets@.len() && j != wi ==> new_s.wallets@[j] == old_s.wallets@[j]
    &&& new_s.wallet_index == old_s.wallet_index
    &&& new_s.user_index == old_s.user_index
    &&& new_s.transactions == old_s.transactions
    &&& new_s.tx_index == old_s.tx_index
}

/// Both sides of a user-wallet link were written: the wallet's address
/// joined the user's list and the user's id joined the wallet's owners,
/// with everything else kept.
pub open spec fn linked(
    old_u: &User,
    new_u: &User,
    old_w: &Wallet,
    new_w: &Wallet,
) -> bool {
    &&& new_u.id == old_u.id
    &&& new_u.transactions == old_u.transactions
    &&& new_u.wallets@.len() == old_u.wallets@.len() + 1
    &&& new_u.wallets@.last()@ == old_w.eth_address@
    &&& new_u.wallets@.take(old_u.wallets@.len() as int) == old_u.wallets@
    &&& crate::wallet::unchanged_but_users(old_w, new_w)
    &&& new_w.users@.len() == old_w.users@.len() + 1
    &&& new_w.users@.last()@ == old_u.id@
    &&& new_w.users@.take(old_w.users@.len() as int) == old_w.users@
}

/// Validates and records one committed leg against the store.
///
/// The sender must be a registered user and a member of the transaction;
/// the rest of the ladder is [`commit_spec`].
pub fn transaction_commit(store: &mut Store, sender: &String, req: &CommitRequest) -> (r: Result<
    String,
    Error,
>)
    ensures
        ({
            let ui = user_idx(old(store).users@, sender@);
            let ti = tx_idx(old(store).transactions@, req.tx_id@);
            if ui == -1 || ti == -1 {
                r == Result::<String, Error>::Err(Error::NotFound) && *final(store) == *old(store)
            } else {
                &&& commit_spec(
                    &old(store).transactions@[ti],
                    &final(store).transactions@[ti],
                    &old(store).users@[ui],
                    req,
                    r,
                )
                &&& final(store).transactions@.len() == old(store).transactions@.len()
                &&& forall|j: int|
                    0 <= j < old(store).transactions@.len() && j != ti ==> final(store).transactions@[j] == old(store).transactions@[j]
                &&& unchanged_but_transactions(old(store), final(store))
            }
        }),
{
    let ui = match find_user(&store.users, sender) {
        Some(i) => i,
        None => {
            return Err(Error::NotFound);
        },
    };
    let ti = match find_tx(&store.transactions, &req.tx_id) {
        Some(i) => i,
        None => {
            return Err(Error::NotFound);
        },
    };
    commit_leg(&store.users[ui], &mut store.transactions[ti], req)
}

/// Finalizes one committed leg against the store.
///
/// The sender must be a registered user; the rest of the ladder is
/// [`apply_spec`].
pub fn transaction_apply(store: &mut Store, sender: &String, tx_id: &String, tx_hash: &String) -> (r:
    Result<String, Error>)
    ensures
        ({
            let ui = user_idx(old(store).users@, sender@);
            let ti = tx_idx(old(store).transactions@, tx_id@);
            if ui == -1 || ti == -1 {
                r == Result::<String, Error>::Err(Error::NotFound) && *final(store) == *old(store)
            } else {
                &&& apply_spec(
                    &old(store).transactions@[ti],
                    &final(store).transactions@[ti],
                    old(store).wallets@,
                    final(store).wallets@,
                    &old(store).users@[ui],
                    tx_hash@,
                    r,
                )
                &&& final(store).transactions@.len() == old(store).transactions@.len()
                &&& forall|j: int|
                    0 <= j < old(store).transactions@.len() && j != ti ==> final(store).transactions@[j] == old(store).transactions@[j]
                &&& final(store).wallet_index == old(store).wallet_index
                &&& final(store).users == old(store).users
                &&& final(store).user_index == old(store).user_index
                &&& final(store).tx_index == old(store).tx_index
            }
        }),
{
    let ui = match find_user(&store.users, sender) {
        Some(i) => i,
        None => {
            return Err(Error::NotFound);
        },
    };
    let ti = match find_tx(&store.transactions, tx_id) {
        Some(i) => i,
        None => {
            return Err(Error::NotFound);
        },
    };
    apply_leg(&store.users[ui], &mut store.transactions[ti], &mut store.wallets, tx_hash)
}

/// Escrows value on a wallet of the store; the ladder and the balance
/// effect are [`crate::wallet::lock_spec`].
pub fn wallet_lock(
    store: &mut Store,
    eth_address: &String,
    network: &String,
    value: Amount,
    balance_witness: Amount,
    timestamp: &String,
) -> (r: Result<String, Error>)
    ensures
        ({
            let wi = wallet_idx(old(store).wallets@, eth_address@);
            if wi == -1 {
                r == Result::<String, Error>::Err(Error::NotFound) && *final(store) == *old(store)
            } else {
                &&& crate::wallet::lock_spec(
                    &old(store).wallets@[wi],
                    &final(store).wallets@[wi],
                    network@,
                    value,
                    balance_witness,
                    timestamp@,
                    r,
                )
                &&& wallet_table_frame(old(store), final(store), wi)
            }
        }),
{
    let wi = match find_wallet(&store.wallets, eth_address) {
        Some(i) => i,
        None => {
            return Err(Error::NotFound);
        },
    };
    store.wallets[wi].lock(network, value, balance_witness, timestamp)
}

/// Releases escrowed value on a wallet of the store; the ladder and the
/// balance effect are [`crate::wallet::unlock_spec`].
pub fn wallet_unlock(
    store: &mut Store,
    eth_address: &String,
    network: &String,
    value: Amount,
    timestamp: &String,
) -> (r: Result<String, Error>)
    ensures
        ({
            let wi = wallet_idx(old(store).wallets@, eth_address@);
            if wi == -1 {
                r == Result::<String, Error>::Err(Error::NotFound) && *final(store) == *old(store)
            } else {
                &&& crate::wallet::unlock_spec(
                    &old(store).wallets@[wi],
                    &final(store).wallets@[wi],
                    network@,
                    value,
                    timestamp@,
                    r,
                )
                &&& wallet_table_frame(old(store), final(store), wi)
            }
        }),
{
    let wi = match find_wallet(&store.wallets, eth_address) {
        Some(i) => i,
        None => {
            return Err(Error::NotFound);
        },
    };
    store.wallets[wi].unlock(network, value, timestamp)
}

/// Binds a wallet of the store to a network with a zero balance book.
pub fn wallet_add_network(store: &mut Store, eth_address: &String, network: &String) -> (r: Result<
    (),
    Error,
>)
    ensures
        ({
            let wi = wallet_idx(old(store).wallets@, eth_address@);
            if wi == -1 {
                r == Result::<(), Error>::Err(Error::NotFound) && *final(store) == *old(store)
            } else {
                &&& match r {
                    Ok(()) => {
                        &&& net_idx(old(store).wallets@[wi].networks@, network@) == -1
                        &&& final(store).wallets@[wi].networks@.len() == old(store).wallets@[wi].networks@.len() + 1
                        &&& final(store).wallets@[wi].networks@.last().network_name@ == network@
                        &&& final(store).wallets@[wi].networks@.last().free.as_nat() == 0
                        &&& final(store).wallets@[wi].networks@.last().locked.as_nat() == 0
                        &&& final(store).wallets@[wi].networks@.take(
                            old(store).wallets@[wi].networks@.len() as int,
                        ) == old(store).wallets@[wi].networks@
                        &&& crate::wallet::unchanged_but_networks(
                            &old(store).wallets@[wi],
                            &final(store).wallets@[wi],
                        )
                    },
                    Err(e) => e == Error::AlreadyExists && net_idx(
                        old(store).wallets@[wi].networks@,
                        network@,
                    ) >= 0 && store_unchanged(old(store), final(store)),
                }
                &&& wallet_table_frame(old(store), final(store), wi)
            }
        }),
{
    let wi = match find_wallet(&store.wallets, eth_address) {
        Some(i) => i,
        None => {
            return Err(Error::NotFound);
        },
    };
    let r = store.wallets[wi].add_network(network);
    proof {
        if r is Err {
            assert(store.wallets@ =~= old(store).wallets@);
        }
    }
    r
}

/// Whether `k` occurs in a list of table positions.
pub open spec fn in_idxs(idxs: Seq<usize>, k: int) -> bool {
    exists|m: int| 0 <= m < idxs.len() && (#[trigger] idxs[m]) as int == k
}

/// The user record the id resolves to carries the `(tx, Participant)`
/// membership in the new table.
pub open spec fn participant_recorded(
    old_users: Seq<User>,
    new_users: Seq<User>,
    id: Seq<char>,
    tx_id: Seq<char>,
) -> bool {
    let k = user_idx(old_users, id);
    k >= 0 && has_pair(new_users[k].transactions@, tx_id, RoleType::Participant)
}

/// Whether the user at `k` is recorded as an owner on the source or the
/// destination wallet.
pub open spec fn owner_of(old_s: &Store, si: int, di: int, k: int) -> bool {
    str_has(old_s.wallets@[si].users@, old_s.users@[k].id@) || str_has(
        old_s.wallets@[di].users@,
        old_s.users@[k].id@,
    )
}

/// Whether some user id recorded on the source or the destination wallet
/// has no record in the user table.
pub open spec fn owner_unresolved(old_s: &Store, si: int, di: int) -> bool {
    (exists|j: int|
        0 <= j < old_s.wallets@[si].users@.len() && user_idx(
            old_s.users@,
            (#[trigger] old_s.wallets@[si].users@[j])@,
        ) == -1) || (exists|j: int|
        0 <= j < old_s.wallets@[di].users@.len() && user_idx(
            old_s.users@,
            (#[trigger] old_s.wallets@[di].users@[j])@,
        ) == -1)
}

/// The store after a successful transaction creation.
pub open spec fn tx_add_ok(
    old_s: &Store,
    new_s: &Store,
    sender: Seq<char>,
    source: Participant,
    destination: Participant,
    timestamp: Seq<char>,
    tx_id: Seq<char>,
) -> bool {
    let si = wallet_idx(old_s.wallets@, source.address@);
    let di = wallet_idx(old_s.wallets@, destination.address@);
    let ui = user_idx(old_s.users@, sender);
    let esc = new_s.wallets@.last();
    let tx = new_s.transactions@.last();
    &&& si >= 0
    &&& di >= 0
    &&& ui >= 0
    &&& tx_id.len() == 128
    &&& exists|seed: Seq<u8>| #![auto] seed.len() == 64 && tx_id == hexstr::hex_of_bytes(seed)
    &&& new_s.wallets@.len() == old_s.wallets@.len() + 1
    &&& new_s.wallets@.take(old_s.wallets@.len() as int) == old_s.wallets@
    &&& wallet_idx(old_s.wallets@, esc.eth_address@) == -1
    &&& net_idx(esc.networks@, source.network_name@) >= 0
    &&& net_idx(esc.networks@, destination.network_name@) >= 0
    &&& forall|i: int|
        0 <= i < esc.networks@.len() ==> (#[trigger] esc.networks@[i]).free.as_nat() == 0
            && esc.networks@[i].locked.as_nat() == 0
    &&& esc.users@.len() == 1
    &&& esc.users@[0]@ == sender
    &&& esc.transactions@.len() == 1
    &&& esc.transactions@[0]@ == tx_id
    &&& new_s.transactions@.len() == old_s.transactions@.len() + 1
    &&& new_s.transactions@.take(old_s.transactions@.len() as int) == old_s.transactions@
    &&& tx.id@ == tx_id
    &&& tx.timestamp@ == timestamp
    &&& tx.escrow_address@ == esc.eth_address@
    &&& tx.payment_vs_payment is Some
    &&& tx.payment_vs_payment.unwrap().source == source
    &&& tx.payment_vs_payment.unwrap().destination == destination
    &&& tx.payment_vs_payment.unwrap().state_machine == PvPstate::AwaitingSourceReceive
    &&& tx.payment_vs_payment.unwrap().network_transactions@.len() == 0
    &&& new_s.tx_index.list@.len() == old_s.tx_index.list@.len() + 1
    &&& new_s.tx_index.list@.last()@ == tx_id
    &&& new_s.tx_index.list@.take(old_s.tx_index.list@.len() as int) == old_s.tx_index.list@
    &&& new_s.wallet_index == old_s.wallet_index
    &&& new_s.user_index == old_s.user_index
    &&& new_s.users@.len() == old_s.users@.len()
    &&& forall|k: int|
        0 <= k < old_s.users@.len() ==> (#[trigger] new_s.users@[k]).id@ == old_s.users@[k].id@
    &&& forall|k: int|
        0 <= k < old_s.users@.len() && k != ui ==> (#[trigger] new_s.users@[k]).wallets
            == old_s.users@[k].wallets
    &&& new_s.users@[ui].wallets@.len() == old_s.users@[ui].wallets@.len() + 1
    &&& new_s.users@[ui].wallets@.last()@ == esc.eth_address@
    &&& new_s.users@[ui].wallets@.take(old_s.users@[ui].wallets@.len() as int)
        == old_s.users@[ui].wallets@
    &&& has_pair(new_s.users@[ui].transactions@, tx_id, RoleType::Orchestrator)
    &&& forall|j: int|
        0 <= j < old_s.wallets@[si].users@.len() ==> participant_recorded(
            old_s.users@,
            new_s.users@,
            (#[trigger] old_s.wallets@[si].users@[j])@,
            tx_id,
        )
    &&& forall|j: int|
        0 <= j < old_s.wallets@[di].users@.len() ==> participant_recorded(
            old_s.users@,
            new_s.users@,
            (#[trigger] old_s.wallets@[di].users@[j])@,
            tx_id,
        )
    &&& forall|k: int|
        0 <= k < old_s.users@.len() && k != ui && !owner_of(old_s, si, di, k) ==> (
        #[trigger] new_s.users@[k]) == old_s.users@[k]
    &&& forall|k: int, i: int|
        0 <= k < old_s.users@.len() && old_s.users@[k].transactions@.len() <= i
            < new_s.users@[k].transactions@.len() ==> (
        #[trigger] new_s.users@[k].transactions@[i]).transaction_id@ == tx_id
    &&& forall|k: int|
        0 <= k < old_s.users@.len() ==> old_s.users@[k].transactions@.len() <= (
        #[trigger] new_s.users@[k]).transactions@.len() && forall|i: int|
            0 <= i < old_s.users@[k].transactions@.len()
                ==> new_s.users@[k].transactions@[i] == old_s.users@[k].transactions@[i]
}

/// Copies a list of strings, keeping each text.
fn clone_strings(v: &Vec<String>) -> (r: Vec<String>)
    ensures
        r@.len() == v@.len(),
        forall|i: int| 0 <= i < v@.len() ==> (#[trigger] r@[i])@ == v@[i]@,
{
    let mut out: Vec<String> = Vec::new();
    let mut i: usize = 0;
    while i < v.len()
        invariant
            i <= v@.len(),
            out@.len() == i,
            forall|j: int| 0 <= j < i ==> (#[trigger] out@[j])@ == v@[j]@,
        decreases v@.len() - i,
    {
        out.push(v[i].clone());
        i = i + 1;
    }
    out
}

/// Creates a PvP transaction: a fresh 128-hex-character id, a fresh escrow
/// wallet bound to both legs' networks and owned by the sender as
/// orchestrator, a `Participant` membership for every user recorded on
/// either leg's wallet, and the transaction itself, persisted in the state
/// `AwaitingSourceReceive`.
///
/// Fails `NotFound` when a leg wallet, the sender, or a recorded owner has
/// no record; `Upstream` on an entropy failure; nothing is changed on any
/// error.
#[verifier::rlimit(80)]
pub fn transaction_add(
    store: &mut Store,
    sender: &String,
    source: Participant,
    destination: Participant,
    timestamp: &String,
) -> (r: Result<String, Error>)
    ensures
        ({
            let si = wallet_idx(old(store).wallets@, source.address@);
            let di = wallet_idx(old(store).wallets@, destination.address@);
            let ui = user_idx(old(store).users@, sender@);
            match r {
                Ok(tx_id) => tx_add_ok(
                    old(store),
                    final(store),
                    sender@,
                    source,
                    destination,
                    timestamp@,
                    tx_id@,
                ),
                Err(e) => {
                    &&& store_unchanged(old(store), final(store))
                    &&& if si == -1 || di == -1 || ui == -1 || owner_unresolved(
                        old(store),
                        si,
                        di,
                    ) {
                        e == Error::NotFound
                    } else {
                        e == Error::Upstream || e == Error::AlreadyExists || e == Error::Internal
                    }
                },
            }
        }),
{
    let si = match find_wallet(&store.wallets, &source.address) {
        Some(i) => i,
        None => {
            return Err(Error::NotFound);
        },
    };
    let di = match find_wallet(&store.wallets, &destination.address) {
        Some(i) => i,
        None => {
            return Err(Error::NotFound);
        },
    };
    let ui = match find_user(&store.users, sender) {
        Some(i) => i,
        None => {
            return Err(Error::NotFound);
        },
    };
    proof {
        lemma_user_idx(old(store).users@, sender@);
    }
    let src_users = clone_strings(store.wallets[si].get_users());
    let dst_users = clone_strings(store.wallets[di].get_users());
    let mut owner_ids: Vec<String> = src_users;
    let ghost su = store.wallets@[si as int].users@.len();
    let mut i: usize = 0;
    while i < dst_users.len()
        invariant
            i <= dst_users@.len(),
            owner_ids@.len() == su + i,
            su == old(store).wallets@[si as int].users@.len(),
            dst_users@.len() == old(store).wallets@[di as int].users@.len(),
            forall|j: int|
                0 <= j < su ==> (#[trigger] owner_ids@[j])@ == old(
                    store,
                ).wallets@[si as int].users@[j]@,
            forall|j: int|
                0 <= j < i ==> (#[trigger] owner_ids@[su + j])@ == dst_users@[j]@,
            forall|j: int|
                0 <= j < dst_users@.len() ==> (#[trigger] dst_users@[j])@ == old(
                    store,
                ).wallets@[di as int].users@[j]@,
            si < store.wallets@.len(),
            di < store.wallets@.len(),
            *store == *old(store),
        decreases dst_users@.len() - i,
    {
        owner_ids.push(dst_users[i].clone());
        i = i + 1;
    }
    let mut owner_idx: Vec<usize> = Vec::new();
    let mut j: usize = 0;
    while j < owner_ids.len()
        invariant
            j <= owner_ids@.len(),
            owner_idx@.len() == j,
            forall|m: int|
                0 <= m < j ==> (#[trigger] owner_idx@[m]) < store.users@.len() && owner_idx@[m]
                    as int == user_idx(store.users@, owner_ids@[m]@),
            *store == *old(store),
            si < old(store).wallets@.len(),
            di < old(store).wallets@.len(),
            si as int == wallet_idx(old(store).wallets@, source.address@),
            di as int == wallet_idx(old(store).wallets@, destination.address@),
            su == old(store).wallets@[si as int].users@.len(),
            dst_users@.len() == old(store).wallets@[di as int].users@.len(),
            owner_ids@.len() == su + dst_users@.len(),
            forall|m: int|
                0 <= m < su ==> (#[trigger] owner_ids@[m])@ == old(
                    store,
                ).wallets@[si as int].users@[m]@,
            forall|m: int|
                0 <= m < dst_users@.len() ==> (#[trigger] owner_ids@[su + m])@ == dst_users@[m]@,
            forall|m: int|
                0 <= m < dst_users@.len() ==> (#[trigger] dst_users@[m])@ == old(
                    store,
                ).wallets@[di as int].users@[m]@,
        decreases owner_ids@.len() - j,
    {
        match find_user(&store.users, &owner_ids[j]) {
            Some(k) => {
                owner_idx.push(k);
            },
            None => {
                proof {
                    assert(user_idx(old(store).users@, owner_ids@[j as int]@) == -1);
                    if (j as int) < su {
                        assert(old(store).wallets@[si as int].users@[j as int]@
                            == owner_ids@[j as int]@);
                    } else {
                        let j2 = j as int - su;
                        assert(owner_ids@[su + j2]@ == dst_users@[j2]@);
                        assert(old(store).wallets@[di as int].users@[j2]@
                            == owner_ids@[j as int]@);
                    }
                    assert(owner_unresolved(old(store), si as int, di as int));
                }
                return Err(Error::NotFound);
            },
        }
        j = j + 1;
    }
    proof {
        assert forall|j2: int|
            0 <= j2 < old(store).wallets@[si as int].users@.len() implies user_idx(
            old(store).users@,
            (#[trigger] old(store).wallets@[si as int].users@[j2])@,
        ) >= 0 by {
            assert(owner_ids@[j2]@ == old(store).wallets@[si as int].users@[j2]@);
            assert(owner_idx@[j2] as int == user_idx(store.users@, owner_ids@[j2]@));
        }
        assert forall|j2: int|
            0 <= j2 < old(store).wallets@[di as int].users@.len() implies user_idx(
            old(store).users@,
            (#[trigger] old(store).wallets@[di as int].users@[j2])@,
        ) >= 0 by {
            assert(owner_ids@[su + j2]@ == dst_users@[j2]@);
            assert(dst_users@[j2]@ == old(store).wallets@[di as int].users@[j2]@);
            assert(owner_idx@[su + j2] as int == user_idx(store.users@, owner_ids@[su + j2]@));
        }
        assert(!owner_unresolved(old(store), si as int, di as int));
    }
    let rb = match crypto::random_bytes(64) {
        Some(b) => b,
        None => {
            return Err(Error::Upstream);
        },
    };
    let tx_id = hexstr::encode_bytes(&rb);
    proof {
        hexstr::lemma_hex_of_bytes_len(rb@);
    }
    let kp = match crate::wallet::generate_keypair(None) {
        Ok(kp) => kp,
        Err(_) => {
            return Err(Error::Upstream);
        },
    };
    proof {
        let sb = choose|sb: Seq<u8>|
            #![auto]
            sb.len() == 32 && kp.0@ == hexstr::hex_of_bytes(sb) && kp.1@ == hexstr::hex_of_bytes(
                crypto::secp256k1_pubkey_of(sb),
            ) && crypto::secp256k1_pubkey_of(sb).len() == 65;
        hexstr::lemma_hex_round_trip(crypto::secp256k1_pubkey_of(sb));
    }
    let mut escrow = match Wallet::new(&kp.0, &kp.1) {
        Ok(w) => w,
        Err(_) => {
            proof {
                assert(false);
            }
            return Err(Error::Internal);
        },
    };
    match escrow.add_network(&source.network_name) {
        Ok(()) => (),
        Err(_) => {
            proof {
                assert(false);
            }
            return Err(Error::Internal);
        },
    }
    if escrow.find_network(&destination.network_name).is_none() {
        match escrow.add_network(&destination.network_name) {
            Ok(()) => (),
            Err(_) => {
                proof {
                    assert(false);
                }
                return Err(Error::Internal);
            },
        }
    }
    proof {
        crate::wallet::lemma_net_idx(escrow.networks@, source.network_name@);
        crate::wallet::lemma_net_idx(escrow.networks@, destination.network_name@);
    }
    let escrow_addr = escrow.get_eth_address();
    if find_wallet(&store.wallets, &escrow_addr).is_some() {
        return Err(Error::Internal);
    }
    proof {
        crate::wallet::lemma_str_idx(store.tx_index.list@, tx_id@);
    }
    if crate::wallet::find_str(&store.tx_index.list, &tx_id).is_some() {
        return Err(Error::AlreadyExists);
    }
    if store.users[ui].has_role(&tx_id, RoleType::Orchestrator) {
        return Err(Error::Internal);
    }
    if store.users[ui].owns_wallet(&escrow_addr) {
        return Err(Error::Internal);
    }
    let ghost users0 = store.users@;
    let mut m: usize = 0;
    while m < owner_idx.len()
        invariant
            m <= owner_idx@.len(),
            store.users@.len() == users0.len(),
            users0 == old(store).users@,
            ui < users0.len(),
            users0[ui as int].id@ == sender@,
            forall|n: int|
                0 <= n < owner_idx@.len() ==> (#[trigger] owner_idx@[n]) < users0.len(),
            forall|k: int|
                0 <= k < users0.len() ==> (#[trigger] store.users@[k]).id@ == users0[k].id@,
            forall|k: int|
                0 <= k < users0.len() ==> (#[trigger] store.users@[k]).wallets
                    == users0[k].wallets,
            forall|k: int|
                0 <= k < users0.len() ==> users0[k].transactions@.len() <= (
                #[trigger] store.users@[k]).transactions@.len() && forall|i2: int|
                    0 <= i2 < users0[k].transactions@.len() ==> store.users@[k].transactions@[i2]
                        == users0[k].transactions@[i2],
            forall|n: int|
                0 <= n < m ==> has_pair(
                    (#[trigger] store.users@[owner_idx@[n] as int]).transactions@,
                    tx_id@,
                    RoleType::Participant,
                ),
            forall|k: int, i2: int|
                0 <= k < users0.len() && users0[k].transactions@.len() <= i2
                    < store.users@[k].transactions@.len() ==> (
                #[trigger] store.users@[k].transactions@[i2]).transaction_id@ == tx_id@,
            forall|k: int|
                0 <= k < users0.len() && !in_idxs(owner_idx@, k) ==> (#[trigger] store.users@[k])
                    == users0[k],
            !has_pair(store.users@[ui as int].transactions@, tx_id@, RoleType::Orchestrator),
            store.wallets == old(store).wallets,
            store.wallet_index == old(store).wallet_index,
            store.user_index == old(store).user_index,
            store.transactions == old(store).transactions,
            store.tx_index == old(store).tx_index,
        decreases owner_idx@.len() - m,
    {
        let k = owner_idx[m];
        let ghost before = store.users@;
        match store.users[k].add_transaction(&tx_id, RoleType::Participant) {
            Ok(()) => (),
            Err(_) => (),
        }
        proof {
            assert(in_idxs(owner_idx@, k as int));
            assert(has_pair(
                store.users@[k as int].transactions@,
                tx_id@,
                RoleType::Participant,
            )) by {
                if store.users@[k as int] == before[k as int] {
                    assert(has_pair(
                        before[k as int].transactions@,
                        tx_id@,
                        RoleType::Participant,
                    ));
                } else {
                    assert(store.users@[k as int].transactions@.last().transaction_id@ == tx_id@
                        && store.users@[k as int].transactions@.last().role
                        == RoleType::Participant);
                }
            }
            assert forall|n: int| 0 <= n < m + 1 implies has_pair(
                (#[trigger] store.users@[owner_idx@[n] as int]).transactions@,
                tx_id@,
                RoleType::Participant,
            ) by {
                if n < m && owner_idx@[n] != k {
                    assert(store.users@[owner_idx@[n] as int] == before[owner_idx@[n] as int]);
                } else if n < m && owner_idx@[n] == k {
                    crate::user::lemma_has_pair_prefix(
                        before[k as int].transactions@,
                        store.users@[k as int].transactions@,
                        tx_id@,
                        RoleType::Participant,
                    );
                }
            }
            assert forall|k2: int, i2: int|
                0 <= k2 < users0.len() && users0[k2].transactions@.len() <= i2
                    < store.users@[k2].transactions@.len() implies (
            #[trigger] store.users@[k2].transactions@[i2]).transaction_id@ == tx_id@ by {
                if k2 == k as int {
                    if i2 < before[k2].transactions@.len() {
                        assert(store.users@[k2].transactions@[i2]
                            == before[k2].transactions@[i2]);
                    } else {
                        assert(store.users@[k2].transactions@[i2]
                            == store.users@[k2].transactions@.last());
                    }
                } else {
                    assert(store.users@[k2] == before[k2]);
                }
            }
            assert(!has_pair(
                store.users@[ui as int].transactions@,
                tx_id@,
                RoleType::Orchestrator,
            )) by {
                if ui == k && store.users@[k as int] != before[k as int] {
                    let s2 = store.users@[ui as int].transactions@;
                    let s1 = before[ui as int].transactions@;
                    assert(forall|i2: int|
                        0 <= i2 < s2.len() && (#[trigger] s2[i2]).transaction_id@ == tx_id@
                            && s2[i2].role == RoleType::Orchestrator ==> i2 < s1.len() && s1[i2]
                            == s2[i2]);
                }
            }
        }
        m = m + 1;
    }
    let ghost users1 = store.users@;
    match store.users[ui].add_transaction(&tx_id, RoleType::Orchestrator) {
        Ok(()) => (),
        Err(_) => {
            proof {
                assert(false);
            }
            return Err(Error::Internal);
        },
    }
    let ghost users2 = store.users@;
    match store.users[ui].add_wallet(&mut escrow) {
        Ok(()) => (),
        Err(_) => {
            proof {
                assert(false);
            }
            return Err(Error::Internal);
        },
    }
    match escrow.add_transaction(&tx_id) {
        Ok(()) => (),
        Err(_) => {
            proof {
                assert(false);
            }
            return Err(Error::Internal);
        },
    }
    store.wallets.push(escrow);
    let tx = Transaction {
        id: tx_id.clone(),
        timestamp: timestamp.clone(),
        payment_vs_payment: Some(
            PaymentVsPayment {
                source,
                destination,
                state_machine: PvPstate::AwaitingSourceReceive,
                network_transactions: Vec::new(),
            },
        ),
        escrow_address: escrow_addr,
    };
    store.transactions.push(tx);
    match store.tx_index.add_transaction(&tx_id) {
        Ok(()) => (),
        Err(_) => {
            proof {
                assert(false);
            }
            return Err(Error::Internal);
        },
    }
    proof {
        assert(rb@.len() == 64 && tx_id@ == hexstr::hex_of_bytes(rb@));
        assert(store.wallets@.take(old(store).wallets@.len() as int) =~= old(store).wallets@);
        assert(store.transactions@.take(old(store).transactions@.len() as int) =~= old(
            store,
        ).transactions@);
        // The two sender-side writes only touched the record at `ui`; every
        // membership recorded by the owner loop survives them.
        assert(forall|i2: int|
            0 <= i2 < users1[ui as int].transactions@.len()
                ==> #[trigger] users2[ui as int].transactions@[i2]
                == users1[ui as int].transactions@[i2]);
        assert(store.users@[ui as int].transactions@ == users2[ui as int].transactions@);
        assert forall|n: int| 0 <= n < owner_idx@.len() implies has_pair(
            (#[trigger] store.users@[owner_idx@[n] as int]).transactions@,
            tx_id@,
            RoleType::Participant,
        ) by {
            let k = owner_idx@[n] as int;
            assert(has_pair(users1[k].transactions@, tx_id@, RoleType::Participant));
            if k == ui {
                crate::user::lemma_has_pair_prefix(
                    users1[k].transactions@,
                    store.users@[k].transactions@,
                    tx_id@,
                    RoleType::Participant,
                );
            } else {
                assert(store.users@[k] == users1[k]);
            }
        }
        assert forall|j: int|
            0 <= j < old(store).wallets@[si as int].users@.len() implies participant_recorded(
            users0,
            store.users@,
            (#[trigger] old(store).wallets@[si as int].users@[j])@,
            tx_id@,
        ) by {
            assert(owner_ids@[j]@ == old(store).wallets@[si as int].users@[j]@);
            assert(owner_idx@[j] as int == user_idx(users0, owner_ids@[j]@));
            assert(has_pair(
                store.users@[owner_idx@[j] as int].transactions@,
                tx_id@,
                RoleType::Participant,
            ));
        }
        assert forall|j: int|
            0 <= j < old(store).wallets@[di as int].users@.len() implies participant_recorded(
            users0,
            store.users@,
            (#[trigger] old(store).wallets@[di as int].users@[j])@,
            tx_id@,
        ) by {
            assert(owner_ids@[su + j]@ == old(store).wallets@[di as int].users@[j]@);
            assert(owner_idx@[su + j] as int == user_idx(users0, owner_ids@[su + j]@));
            assert(has_pair(
                store.users@[owner_idx@[su + j] as int].transactions@,
                tx_id@,
                RoleType::Participant,
            ));
        }
        // The orchestrator membership was the entry pushed for the sender.
        assert(has_pair(users2[ui as int].transactions@, tx_id@, RoleType::Orchestrator)) by {
            assert(users2[ui as int].transactions@.last().transaction_id@ == tx_id@
                && users2[ui as int].transactions@.last().role == RoleType::Orchestrator);
        }
        // Users neither listed on a leg wallet nor the sender are untouched.
        assert forall|k: int|
            0 <= k < users0.len() && k != ui && !owner_of(
            old(store),
            si as int,
            di as int,
            k,
        ) implies (#[trigger] store.users@[k]) == users0[k] by {
            if in_idxs(owner_idx@, k) {
                let n = choose|n: int|
                    0 <= n < owner_idx@.len() && (#[trigger] owner_idx@[n]) as int == k;
                lemma_user_idx(users0, owner_ids@[n]@);
                assert(users0[k].id@ == owner_ids@[n]@);
                if n < su {
                    assert(old(store).wallets@[si as int].users@[n]@ == users0[k].id@);
                } else {
                    let j2 = n - su;
                    assert(owner_ids@[su + j2]@ == dst_users@[j2]@);
                    assert(dst_users@[j2]@ == old(store).wallets@[di as int].users@[j2]@);
                    assert(old(store).wallets@[di as int].users@[j2]@ == users0[k].id@);
                }
            } else {
                assert(users1[k] == users0[k]);
                assert(store.users@[k] == users1[k]);
            }
        }
    }
    Ok(tx_id)
}

/// The store holds the same contents: tables equal element for element,
/// indices equal.
pub open spec fn store_unchanged(a: &Store, b: &Store) -> bool {
    &&& b.wallets@ == a.wallets@
    &&& b.wallet_index == a.wallet_index
    &&& b.users@ == a.users@
    &&& b.user_index == a.user_index
    &&& b.transactions@ == a.transactions@
    &&& b.tx_index == a.tx_index
}

/// Two wallet tables with the same addresses at every position resolve
/// every address to the same position.
pub proof fn lemma_wallet_idx_same_addrs(s1: Seq<Wallet>, s2: Seq<Wallet>, address: Seq<char>)
    requires
        s1.len() == s2.len(),
        forall|i: int| 0 <= i < s1.len() ==> (#[trigger] s2[i]).eth_address@ == s1[i].eth_address@,
    ensures
        wallet_idx(s1, address) == wallet_idx(s2, address),
    decreases s1.len(),
{
    if s1.len() > 0 {
        assert(forall|i: int|
            0 <= i < s1.drop_first().len() ==> (#[trigger] s2.drop_first()[i]) == s2[i + 1]
                && s1.drop_first()[i] == s1[i + 1]);
        lemma_wallet_idx_same_addrs(s1.drop_first(), s2.drop_first(), address);
    }
}

/// Law: a successful apply moves balances only.  Every wallet keeps its
/// address and its network bindings at their positions, so any wallet that
/// resolved before still resolves to the same record shape afterwards — in
/// particular the escrow wallet of any transaction stays bound to both
/// legs' networks.
pub proof fn lemma_apply_preserves_bindings(
    old_t: &Transaction,
    new_t: &Transaction,
    old_ws: Seq<Wallet>,
    new_ws: Seq<Wallet>,
    user: &User,
    tx_hash: Seq<char>,
    r: Result<String, Error>,
)
    requires
        apply_spec(old_t, new_t, old_ws, new_ws, user, tx_hash, r),
        r is Ok,
    ensures
        new_ws.len() == old_ws.len(),
        forall|j: int|
            0 <= j < old_ws.len() ==> (#[trigger] new_ws[j]).eth_address@
                == old_ws[j].eth_address@,
        forall|a: Seq<char>| wallet_idx(new_ws, a) == wallet_idx(old_ws, a),
        forall|j: int, name: Seq<char>|
            0 <= j < old_ws.len() ==> #[trigger] net_idx(new_ws[j].networks@, name) == net_idx(
                old_ws[j].networks@,
                name,
            ),
{
    assert(new_ws.len() == old_ws.len());
    assert forall|j: int| 0 <= j < old_ws.len() implies (#[trigger] new_ws[j]).eth_address@
        == old_ws[j].eth_address@ by {}
    assert forall|a: Seq<char>| wallet_idx(new_ws, a) == wallet_idx(old_ws, a) by {
        lemma_wallet_idx_same_addrs(old_ws, new_ws, a);
    }
    assert forall|j: int, name: Seq<char>|
        0 <= j < old_ws.len() implies #[trigger] net_idx(new_ws[j].networks@, name) == net_idx(
        old_ws[j].networks@,
        name,
    ) by {
        crate::wallet::lemma_net_idx_same_names(old_ws[j].networks@, new_ws[j].networks@, name);
    }
}

/// One audit trail evolved from the other: it never shrinks, and each kept
/// entry is either untouched or moved once, from the waiting state it was
/// committed under to `Complete`, with its network and hash intact.
pub open spec fn audit_monotone(
    old_trail: Seq<NetworkTransaction>,
    new_trail: Seq<NetworkTransaction>,
) -> bool {
    &&& old_trail.len() <= new_trail.len()
    &&& forall|i: int|
        0 <= i < old_trail.len() ==> (#[trigger] new_trail[i]) == old_trail[i] || (is_commit_state(
            old_trail[i].state,
        ) && new_trail[i].state == PvPstate::Complete && new_trail[i].network_name
            == old_trail[i].network_name && new_trail[i].tx_hash == old_trail[i].tx_hash)
}

/// Law: a commit only ever appends to the audit trail.
pub proof fn lemma_commit_audit_monotone(
    old_t: &Transaction,
    new_t: &Transaction,
    user: &User,
    req: &CommitRequest,
    r: Result<String, Error>,
)
    requires
        commit_spec(old_t, new_t, user, req, r),
        old_t.payment_vs_payment is Some,
        new_t.payment_vs_payment is Some,
    ensures
        audit_monotone(
            old_t.payment_vs_payment.unwrap().network_transactions@,
            new_t.payment_vs_payment.unwrap().network_transactions@,
        ),
{
    let ot = old_t.payment_vs_payment.unwrap().network_transactions@;
    let nt = new_t.payment_vs_payment.unwrap().network_transactions@;
    if nt.len() == ot.len() + 1 {
        assert(forall|i: int| 0 <= i < ot.len() ==> (#[trigger] nt[i]) == nt.take(ot.len() as int)[i]);
    }
}

/// Law: an apply completes exactly the matched audit entry, which was
/// awaiting under a commit state, and touches no other entry.
pub proof fn lemma_apply_audit_monotone(
    old_t: &Transaction,
    new_t: &Transaction,
    old_ws: Seq<Wallet>,
    new_ws: Seq<Wallet>,
    user: &User,
    tx_hash: Seq<char>,
    r: Result<String, Error>,
)
    requires
        apply_spec(old_t, new_t, old_ws, new_ws, user, tx_hash, r),
        old_t.payment_vs_payment is Some,
        new_t.payment_vs_payment is Some,
    ensures
        audit_monotone(
            old_t.payment_vs_payment.unwrap().network_transactions@,
            new_t.payment_vs_payment.unwrap().network_transactions@,
        ),
{
}

/// Law: a successful apply strictly advances the state machine one step
/// along the linear order, except on an already complete transaction,
/// which stays complete.
pub proof fn lemma_apply_progress(
    old_t: &Transaction,
    new_t: &Transaction,
    old_ws: Seq<Wallet>,
    new_ws: Seq<Wallet>,
    user: &User,
    tx_hash: Seq<char>,
    r: Result<String, Error>,
)
    requires
        apply_spec(old_t, new_t, old_ws, new_ws, user, tx_hash, r),
        r is Ok,
        old_t.payment_vs_payment is Some,
    ensures
        new_t.payment_vs_payment is Some,
        ({
            let os = old_t.payment_vs_payment.unwrap().state_machine;
            let ns = new_t.payment_vs_payment.unwrap().state_machine;
            if os == PvPstate::Complete {
                ns == PvPstate::Complete
            } else {
                state_index(ns) == state_index(os) + 1
            }
        }),
{
}

/// Law: a successful commit advances the state machine exactly one step
/// and never past a finalized waiting state, except on an already complete
/// transaction, which stays complete.
pub proof fn lemma_commit_progress(
    old_t: &Transaction,
    new_t: &Transaction,
    user: &User,
    req: &CommitRequest,
    r: Result<String, Error>,
)
    requires
        commit_spec(old_t, new_t, user, req, r),
        r is Ok,
        old_t.payment_vs_payment is Some,
    ensures
        new_t.payment_vs_payment is Some,
        ({
            let os = old_t.payment_vs_payment.unwrap().state_machine;
            let ns = new_t.payment_vs_payment.unwrap().state_machine;
            if os == PvPstate::Complete {
                ns == PvPstate::Complete
            } else {
                state_index(ns) == state_index(os) + 1 && state_index(ns) <= 8
            }
        }),
{
}

/// Every persisted transaction's escrow address resolves to a wallet of
/// the table that is bound to both legs' networks.
pub open spec fn escrow_resolves(transactions: Seq<Transaction>, wallets: Seq<Wallet>) -> bool {
    forall|t: int|
        0 <= t < transactions.len() && (#[trigger] transactions[t]).payment_vs_payment is Some
            ==> ({
            let pvp = transactions[t].payment_vs_payment.unwrap();
            let wi = wallet_idx(wallets, transactions[t].escrow_address@);
            &&& wi >= 0
            &&& net_idx(wallets[wi].networks@, pvp.source.network_name@) >= 0
            &&& net_idx(wallets[wi].networks@, pvp.destination.network_name@) >= 0
        })
}

/// A transaction kept its escrow address and its legs' networks.
pub open spec fn leg_shape_kept(old_t: Transaction, new_t: Transaction) -> bool {
    &&& new_t.escrow_address@ == old_t.escrow_address@
    &&& (new_t.payment_vs_payment is Some <==> old_t.payment_vs_payment is Some)
    &&& (old_t.payment_vs_payment is Some ==> {
        let op = old_t.payment_vs_payment.unwrap();
        let np = new_t.payment_vs_payment.unwrap();
        np.source.network_name@ == op.source.network_name@ && np.destination.network_name@
            == op.destination.network_name@
    })
}

/// A commit keeps every transaction's escrow address and leg networks.
pub proof fn lemma_commit_keeps_shape(
    old_t: &Transaction,
    new_t: &Transaction,
    user: &User,
    req: &CommitRequest,
    r: Result<String, Error>,
)
    requires
        commit_spec(old_t, new_t, user, req, r),
    ensures
        leg_shape_kept(*old_t, *new_t),
{
}

/// An apply keeps every transaction's escrow address and leg networks.
pub proof fn lemma_apply_keeps_shape(
    old_t: &Transaction,
    new_t: &Transaction,
    old_ws: Seq<Wallet>,
    new_ws: Seq<Wallet>,
    user: &User,
    tx_hash: Seq<char>,
    r: Result<String, Error>,
)
    requires
        apply_spec(old_t, new_t, old_ws, new_ws, user, tx_hash, r),
    ensures
        leg_shape_kept(*old_t, *new_t),
{
}

/// Law: escrow resolution survives any step that changes one transaction
/// while keeping its shape and leaves every wallet's address and bindings
/// in place — in particular every commit and every apply.
pub proof fn lemma_step_preserves_escrow_resolution(
    old_ts: Seq<Transaction>,
    new_ts: Seq<Transaction>,
    ti: int,
    old_ws: Seq<Wallet>,
    new_ws: Seq<Wallet>,
)
    requires
        escrow_resolves(old_ts, old_ws),
        new_ts.len() == old_ts.len(),
        0 <= ti < old_ts.len(),
        forall|j: int| 0 <= j < old_ts.len() && j != ti ==> new_ts[j] == old_ts[j],
        leg_shape_kept(old_ts[ti], new_ts[ti]),
        new_ws.len() == old_ws.len(),
        forall|a: Seq<char>| wallet_idx(new_ws, a) == wallet_idx(old_ws, a),
        forall|j: int, name: Seq<char>|
            0 <= j < old_ws.len() ==> #[trigger] net_idx(new_ws[j].networks@, name) == net_idx(
                old_ws[j].networks@,
                name,
            ),
    ensures
        escrow_resolves(new_ts, new_ws),
{
    assert forall|t: int|
        0 <= t < new_ts.len() && (#[trigger] new_ts[t]).payment_vs_payment is Some implies ({
        let pvp = new_ts[t].payment_vs_payment.unwrap();
        let wi = wallet_idx(new_ws, new_ts[t].escrow_address@);
        &&& wi >= 0
        &&& net_idx(new_ws[wi].networks@, pvp.source.network_name@) >= 0
        &&& net_idx(new_ws[wi].networks@, pvp.destination.network_name@) >= 0
    }) by {
        assert(old_ts[t].payment_vs_payment is Some);
        let wi = wallet_idx(old_ws, old_ts[t].escrow_address@);
        lemma_wallet_idx(old_ws, old_ts[t].escrow_address@);
        assert(net_idx(
            new_ws[wi].networks@,
            old_ts[t].payment_vs_payment.unwrap().source.network_name@,
        ) == net_idx(
            old_ws[wi].networks@,
            old_ts[t].payment_vs_payment.unwrap().source.network_name@,
        ));
        assert(net_idx(
            new_ws[wi].networks@,
            old_ts[t].payment_vs_payment.unwrap().destination.network_name@,
        ) == net_idx(
            old_ws[wi].networks@,
            old_ts[t].payment_vs_payment.unwrap().destination.network_name@,
        ));
    }
}

/// Appending an entry keeps the position of every address that already
/// resolved.
pub proof fn lemma_wallet_idx_push_stable(s: Seq<Wallet>, w: Wallet, address: Seq<char>)
    requires
        wallet_idx(s, address) >= 0,
    ensures
        wallet_idx(s.push(w), address) == wallet_idx(s, address),
    decreases s.len(),
{
    if s.len() > 0 && s[0].eth_address@ != address {
        assert(s.push(w).drop_first() =~= s.drop_first().push(w));
        lemma_wallet_idx(s.drop_first(), address);
        lemma_wallet_idx_push_stable(s.drop_first(), w, address);
    }
}

/// Appending a wallet whose address is absent makes it the first match.
pub proof fn lemma_wallet_idx_push_fresh(s: Seq<Wallet>, w: Wallet)
    requires
        wallet_idx(s, w.eth_address@) == -1,
    ensures
        wallet_idx(s.push(w), w.eth_address@) == s.len(),
    decreases s.len(),
{
    lemma_wallet_idx(s, w.eth_address@);
    if s.len() == 0 {
        assert(s.push(w)[0] == w);
    } else {
        lemma_wallet_idx(s.drop_first(), w.eth_address@);
        assert(s.push(w).drop_first() =~= s.drop_first().push(w));
        lemma_wallet_idx_push_fresh(s.drop_first(), w);
    }
}

/// Law: creating a transaction preserves escrow resolution, and the new
/// transaction's escrow wallet resolves as well, bound to both legs'
/// networks.
pub proof fn lemma_tx_add_preserves_escrow_resolution(
    old_s: &Store,
    new_s: &Store,
    sender: Seq<char>,
    source: Participant,
    destination: Participant,
    timestamp: Seq<char>,
    tx_id: Seq<char>,
)
    requires
        escrow_resolves(old_s.transactions@, old_s.wallets@),
        tx_add_ok(old_s, new_s, sender, source, destination, timestamp, tx_id),
    ensures
        escrow_resolves(new_s.transactions@, new_s.wallets@),
{
    let old_ts = old_s.transactions@;
    let new_ts = new_s.transactions@;
    let old_ws = old_s.wallets@;
    let new_ws = new_s.wallets@;
    let esc = new_ws.last();
    assert(new_ws =~= old_ws.push(esc));
    assert forall|t: int|
        0 <= t < new_ts.len() && (#[trigger] new_ts[t]).payment_vs_payment is Some implies ({
        let pvp = new_ts[t].payment_vs_payment.unwrap();
        let wi = wallet_idx(new_ws, new_ts[t].escrow_address@);
        &&& wi >= 0
        &&& net_idx(new_ws[wi].networks@, pvp.source.network_name@) >= 0
        &&& net_idx(new_ws[wi].networks@, pvp.destination.network_name@) >= 0
    }) by {
        if t < old_ts.len() {
            assert(new_ts[t] == old_ts[t]);
            let wi = wallet_idx(old_ws, old_ts[t].escrow_address@);
            lemma_wallet_idx(old_ws, old_ts[t].escrow_address@);
            lemma_wallet_idx_push_stable(old_ws, esc, old_ts[t].escrow_address@);
            assert(new_ws[wi] == old_ws[wi]);
        } else {
            assert(new_ts[t] == new_ts.last());
            lemma_wallet_idx_push_fresh(old_ws, esc);
            assert(wallet_idx(new_ws, esc.eth_address@) == old_ws.len());
            assert(new_ws[old_ws.len() as int] == esc);
        }
    }
}

/// Bidirectional consistency of the user-wallet links: a user lists a
/// wallet's address exactly when that wallet lists the user's id.
pub open spec fn links_consistent(users: Seq<User>, wallets: Seq<Wallet>) -> bool {
    forall|k: int, j: int|
        0 <= k < users.len() && 0 <= j < wallets.len() ==> (str_has(
            (#[trigger] users[k]).wallets@,
            (#[trigger] wallets[j]).eth_address@,
        ) <==> str_has(wallets[j].users@, users[k].id@))
}

/// No two user records share an id.
pub open spec fn distinct_user_ids(users: Seq<User>) -> bool {
    forall|k1: int, k2: int|
        0 <= k1 < k2 < users.len() ==> (#[trigger] users[k1]).id@ != (#[trigger] users[k2]).id@
}

/// No two wallet records share an address.
pub open spec fn distinct_wallet_addrs(wallets: Seq<Wallet>) -> bool {
    forall|j1: int, j2: int|
        0 <= j1 < j2 < wallets.len() ==> (#[trigger] wallets[j1]).eth_address@ != (
        #[trigger] wallets[j2]).eth_address@
}

/// Law: linking a wallet to a user writes both sides of the link, so on a
/// store with distinct ids and addresses the bidirectional consistency of
/// the user-wallet links is preserved.
pub proof fn lemma_link_preserves_consistency(old_s: &Store, new_s: &Store, ui: int, wi: int)
    requires
        0 <= ui < old_s.users@.len(),
        0 <= wi < old_s.wallets@.len(),
        user_add_wallet_ok(old_s, new_s, ui, wi),
        links_consistent(old_s.users@, old_s.wallets@),
        distinct_user_ids(old_s.users@),
        distinct_wallet_addrs(old_s.wallets@),
        !str_has(old_s.users@[ui].wallets@, old_s.wallets@[wi].eth_address@),
        !str_has(old_s.wallets@[wi].users@, old_s.users@[ui].id@),
    ensures
        links_consistent(new_s.users@, new_s.wallets@),
{
    let ou = old_s.users@;
    let ow = old_s.wallets@;
    let nu = new_s.users@;
    let nw = new_s.wallets@;
    assert forall|k: int, j: int|
        0 <= k < nu.len() && 0 <= j < nw.len() implies (str_has(
        (#[trigger] nu[k]).wallets@,
        (#[trigger] nw[j]).eth_address@,
    ) <==> str_has(nw[j].users@, nu[k].id@)) by {
        assert(nw[j].eth_address@ == ow[j].eth_address@);
        assert(nu[k].id@ == ou[k].id@);
        if k == ui && j == wi {
            assert(str_has(nu[k].wallets@, nw[j].eth_address@)) by {
                assert(nu[k].wallets@[ou[k].wallets@.len() as int]@ == ow[j].eth_address@);
            }
            assert(str_has(nw[j].users@, nu[k].id@)) by {
                assert(nw[j].users@[ow[j].users@.len() as int]@ == ou[k].id@);
            }
        } else if k == ui {
            assert(nw[j] == ow[j]);
            assert(str_has(nu[k].wallets@, ow[j].eth_address@) <==> str_has(
                ou[k].wallets@,
                ow[j].eth_address@,
            )) by {
                lemma_str_has_push_other(
                    ou[k].wallets@,
                    nu[k].wallets@,
                    ow[j].eth_address@,
                    ow[wi].eth_address@,
                );
            }
        } else if j == wi {
            assert(nu[k] == ou[k]);
            assert(str_has(nw[j].users@, ou[k].id@) <==> str_has(ow[j].users@, ou[k].id@)) by {
                lemma_str_has_push_other(ow[j].users@, nw[j].users@, ou[k].id@, ou[ui].id@);
            }
        } else {
            assert(nu[k] == ou[k]);
            assert(nw[j] == ow[j]);
        }
    }
}

/// Every address a user lists resolves to a wallet of the table.
pub open spec fn wallets_resolve(users: Seq<User>, wallets: Seq<Wallet>) -> bool {
    forall|k: int, i: int|
        0 <= k < users.len() && 0 <= i < (#[trigger] users[k]).wallets@.len() ==> wallet_idx(
            wallets,
            (#[trigger] users[k].wallets@[i])@,
        ) >= 0
}

/// Law: creating a transaction links the fresh escrow wallet to the
/// orchestrator on both sides and touches no other link, so on a store
/// whose links are consistent, resolve, and whose ids and addresses are
/// distinct, the bidirectional consistency of the user-wallet links is
/// preserved.
pub proof fn lemma_tx_add_preserves_consistency(
    old_s: &Store,
    new_s: &Store,
    sender: Seq<char>,
    source: Participant,
    destination: Participant,
    timestamp: Seq<char>,
    tx_id: Seq<char>,
)
    requires
        tx_add_ok(old_s, new_s, sender, source, destination, timestamp, tx_id),
        links_consistent(old_s.users@, old_s.wallets@),
        wallets_resolve(old_s.users@, old_s.wallets@),
        distinct_user_ids(old_s.users@),
        distinct_wallet_addrs(old_s.wallets@),
    ensures
        links_consistent(new_s.users@, new_s.wallets@),
        wallets_resolve(new_s.users@, new_s.wallets@),
        distinct_user_ids(new_s.users@),
        distinct_wallet_addrs(new_s.wallets@),
{
    let ou = old_s.users@;
    let ow = old_s.wallets@;
    let nu = new_s.users@;
    let nw = new_s.wallets@;
    let ui = user_idx(ou, sender);
    let esc = nw.last();
    lemma_user_idx(ou, sender);
    lemma_wallet_idx(ow, esc.eth_address@);
    assert(forall|j: int| 0 <= j < ow.len() ==> (#[trigger] nw[j]) == ow[j]);
    // The escrow address is fresh: no old wallet carries it, and by
    // resolution no old user lists it.
    assert(forall|j: int| 0 <= j < ow.len() ==> (#[trigger] ow[j]).eth_address@ != esc.eth_address@);
    assert forall|k: int, i: int|
        0 <= k < ou.len() && 0 <= i < (#[trigger] ou[k]).wallets@.len() implies (
    #[trigger] ou[k].wallets@[i])@ != esc.eth_address@ by {
        lemma_wallet_idx(ow, ou[k].wallets@[i]@);
    }
    // Memberships changed; wallet lists changed only for the sender, by the
    // escrow address; ids are untouched.
    assert forall|k: int, j: int|
        0 <= k < nu.len() && 0 <= j < nw.len() implies (str_has(
        (#[trigger] nu[k]).wallets@,
        (#[trigger] nw[j]).eth_address@,
    ) <==> str_has(nw[j].users@, nu[k].id@)) by {
        assert(nu[k].id@ == ou[k].id@);
        if j < ow.len() {
            assert(nw[j] == ow[j]);
            if k == ui {
                lemma_str_has_push_other(
                    ou[k].wallets@,
                    nu[k].wallets@,
                    ow[j].eth_address@,
                    esc.eth_address@,
                );
            } else {
                assert(nu[k].wallets == ou[k].wallets);
            }
        } else {
            assert(nw[j] == esc);
            // The escrow wallet's only owner is the sender.
            if k == ui {
                assert(str_has(esc.users@, sender)) by {
                    assert(esc.users@[0]@ == sender);
                }
                assert(str_has(nu[k].wallets@, esc.eth_address@)) by {
                    assert(nu[k].wallets@[ou[k].wallets@.len() as int]@ == esc.eth_address@);
                }
            } else {
                assert(ou[k].id@ != sender) by {
                    if k < ui {
                        assert(ou[k].id@ != ou[ui].id@);
                    } else {
                        assert(ou[ui].id@ != ou[k].id@);
                    }
                }
                assert(!str_has(esc.users@, nu[k].id@)) by {
                    if str_has(esc.users@, nu[k].id@) {
                        let i = choose|i: int|
                            0 <= i < esc.users@.len() && (#[trigger] esc.users@[i])@ == nu[k].id@;
                        assert(i == 0);
                    }
                }
                assert(nu[k].wallets == ou[k].wallets);
                assert(!str_has(nu[k].wallets@, esc.eth_address@)) by {
                    if str_has(ou[k].wallets@, esc.eth_address@) {
                        let i = choose|i: int|
                            0 <= i < ou[k].wallets@.len() && (#[trigger] ou[k].wallets@[i])@
                                == esc.eth_address@;
                    }
                }
            }
        }
    }
    // Resolution: the sender's new entry names the appended wallet; every
    // old entry still resolves under the longer table.
    assert forall|k: int, i: int|
        0 <= k < nu.len() && 0 <= i < (#[trigger] nu[k]).wallets@.len() implies wallet_idx(
        nw,
        (#[trigger] nu[k].wallets@[i])@,
    ) >= 0 by {
        if k == ui && i == ou[k].wallets@.len() {
            lemma_wallet_idx_push_fresh(ow, esc);
            assert(nw =~= ow.push(esc));
        } else {
            assert(nu[k].wallets@[i]@ == ou[k].wallets@[i]@) by {
                if k == ui {
                    assert(nu[k].wallets@.take(ou[k].wallets@.len() as int) == ou[k].wallets@);
                }
            }
            lemma_wallet_idx(ow, ou[k].wallets@[i]@);
            lemma_wallet_idx_push_stable(ow, esc, ou[k].wallets@[i]@);
            assert(nw =~= ow.push(esc));
        }
    }
    assert(distinct_wallet_addrs(nw)) by {
        assert(forall|j: int| 0 <= j < ow.len() ==> (#[trigger] nw[j]) == ow[j]);
    }
}

/// Every transaction a user's memberships name exists in the transaction
/// table.
pub open spec fn memberships_resolve(users: Seq<User>, transactions: Seq<Transaction>) -> bool {
    forall|k: int, i: int|
        0 <= k < users.len() && 0 <= i < users[k].transactions@.len() ==> tx_idx(
            transactions,
            (#[trigger] users[k].transactions@[i]).transaction_id@,
        ) >= 0
}

/// Appending an entry keeps the position of every id that already
/// resolved.
pub proof fn lemma_tx_idx_push_stable(s: Seq<Transaction>, t: Transaction, id: Seq<char>)
    requires
        tx_idx(s, id) >= 0,
    ensures
        tx_idx(s.push(t), id) == tx_idx(s, id),
    decreases s.len(),
{
    if s.len() > 0 && s[0].id@ != id {
        assert(s.push(t).drop_first() =~= s.drop_first().push(t));
        crate::transactions::lemma_tx_idx(s.drop_first(), id);
        lemma_tx_idx_push_stable(s.drop_first(), t, id);
    }
}

/// Appending a transaction whose id is absent makes it the first match.
pub proof fn lemma_tx_idx_push_fresh(s: Seq<Transaction>, t: Transaction)
    requires
        tx_idx(s, t.id@) == -1,
    ensures
        tx_idx(s.push(t), t.id@) == s.len(),
    decreases s.len(),
{
    crate::transactions::lemma_tx_idx(s, t.id@);
    if s.len() == 0 {
        assert(s.push(t)[0] == t);
    } else {
        crate::transactions::lemma_tx_idx(s.drop_first(), t.id@);
        assert(s.push(t).drop_first() =~= s.drop_first().push(t));
        lemma_tx_idx_push_fresh(s.drop_first(), t);
    }
}

/// Law: every membership created by a transaction creation names the
/// created transaction, so on a store whose memberships resolve they
/// still resolve afterwards — the user-transaction links stay backed.
pub proof fn lemma_tx_add_preserves_membership_resolution(
    old_s: &Store,
    new_s: &Store,
    sender: Seq<char>,
    source: Participant,
    destination: Participant,
    timestamp: Seq<char>,
    tx_id: Seq<char>,
)
    requires
        tx_add_ok(old_s, new_s, sender, source, destination, timestamp, tx_id),
        memberships_resolve(old_s.users@, old_s.transactions@),
        tx_idx(old_s.transactions@, tx_id) == -1,
    ensures
        memberships_resolve(new_s.users@, new_s.transactions@),
{
    let ou = old_s.users@;
    let nu = new_s.users@;
    let ots = old_s.transactions@;
    let nts = new_s.transactions@;
    let created = nts.last();
    assert(nts =~= ots.push(created));
    assert(created.id@ == tx_id);
    assert forall|k: int, i: int|
        0 <= k < nu.len() && 0 <= i < nu[k].transactions@.len() implies tx_idx(
        nts,
        (#[trigger] nu[k].transactions@[i]).transaction_id@,
    ) >= 0 by {
        if i < ou[k].transactions@.len() {
            assert(nu[k].transactions@[i] == ou[k].transactions@[i]);
            crate::transactions::lemma_tx_idx(ots, ou[k].transactions@[i].transaction_id@);
            lemma_tx_idx_push_stable(ots, created, ou[k].transactions@[i].transaction_id@);
        } else {
            assert(nu[k].transactions@[i].transaction_id@ == tx_id);
            lemma_tx_idx_push_fresh(ots, created);
        }
    }
}

/// Appending one string that differs from `x` does not change whether `x`
/// occurs.
proof fn lemma_str_has_push_other(s1: Seq<String>, s2: Seq<String>, x: Seq<char>, pushed: Seq<char>)
    requires
        s2.len() == s1.len() + 1,
        forall|i: int| 0 <= i < s1.len() ==> s2[i] == s1[i],
        s2[s1.len() as int]@ == pushed,
        pushed != x,
    ensures
        str_has(s2, x) <==> str_has(s1, x),
{
    if str_has(s1, x) {
        let i = choose|i: int| 0 <= i < s1.len() && (#[trigger] s1[i])@ == x;
        assert(s2[i]@ == x);
    }
    if str_has(s2, x) {
        let i = choose|i: int| 0 <= i < s2.len() && (#[trigger] s2[i])@ == x;
        assert(i < s1.len());
        assert(s1[i]@ == x);
    }
}

/// Only the wallet at `wi` may differ; every other part of the store is
/// equal.
pub open spec fn wallet_table_frame(a: &Store, b: &Store, wi: int) -> bool {
    &&& b.wallets@.len() == a.wallets@.len()
    &&& forall|j: int| 0 <= j < a.wallets@.len() && j != wi ==> b.wallets@[j] == a.wallets@[j]
    &&& b.wallet_index == a.wallet_index
    &&& unchanged_users_txs(a, b)
}

} // verus!
