//! Users and their owned wallets and transaction memberships.
//!
//! A user is a principal authenticated by the host.  The wallet list and
//! the transaction list are one side of bidirectional indices: adding a
//! wallet here also records the user on the wallet side before returning
//! success.

use crate::crypto;
use crate::errors::Error;
use crate::hexstr;
use crate::wallet::{find_str, lemma_str_idx, str_has, Wallet};
use vstd::prelude::*;

verus! {

/// The role a user plays in a transaction.
#[derive(Clone, Copy, Debug, PartialEq, Eq, Structural)]
pub enum RoleType {
    /// No role.
    Unassigned,
    /// The user drives the exchange and owns the escrow wallet.
    Orchestrator,
    /// The user owns one of the participating wallets.
    Participant,
}

/// One transaction membership of a user.
pub struct TransactionRole {
    pub transaction_id: String,
    pub role: RoleType,
}

/// A principal with its owned wallets and transaction memberships.
pub struct User {
    pub id: String,
    pub transactions: Vec<TransactionRole>,
    pub wallets: Vec<String>,
}

/// Whether the membership list holds the pair `(tx, role)`.
pub open spec fn has_pair(s: Seq<TransactionRole>, tx: Seq<char>, role: RoleType) -> bool {
    exists|i: int|
        0 <= i < s.len() && (#[trigger] s[i]).transaction_id@ == tx && s[i].role == role
}

/// Whether the membership list names the transaction `tx` under any role.
pub open spec fn has_tx(s: Seq<TransactionRole>, tx: Seq<char>) -> bool {
    exists|i: int| 0 <= i < s.len() && (#[trigger] s[i]).transaction_id@ == tx
}

/// A membership pair survives any extension of the list that keeps the
/// recorded prefix.
pub proof fn lemma_has_pair_prefix(
    s1: Seq<TransactionRole>,
    s2: Seq<TransactionRole>,
    tx: Seq<char>,
    role: RoleType,
)
    requires
        s1.len() <= s2.len(),
        forall|i: int| 0 <= i < s1.len() ==> s2[i] == s1[i],
        has_pair(s1, tx, role),
    ensures
        has_pair(s2, tx, role),
{
    let i = choose|i: int|
        0 <= i < s1.len() && (#[trigger] s1[i]).transaction_id@ == tx && s1[i].role == role;
    assert(s2[i].transaction_id@ == tx && s2[i].role == role);
}

impl User {
    /// Builds a fresh user.  An empty id is replaced by 64 bytes of host
    /// entropy in hex; `Upstream` reports an entropy failure.
    pub fn new(id: &String) -> (r: Result<User, Error>)
        ensures
            match r {
                Ok(u) => {
                    &&& u.transactions@.len() == 0
                    &&& u.wallets@.len() == 0
                    &&& if id@.len() > 0 {
                        u.id@ == id@
                    } else {
                        exists|b: Seq<u8>|
                            #![auto]
                            b.len() == 64 && u.id@ == hexstr::hex_of_bytes(b)
                    }
                },
                Err(e) => e == Error::Upstream && id@.len() == 0,
            },
    {
        if id.as_str().unicode_len() > 0 {
            Ok(User { id: id.clone(), transactions: Vec::new(), wallets: Vec::new() })
        } else {
            let b = match crypto::random_bytes(64) {
                Some(b) => b,
                None => {
                    return Err(Error::Upstream);
                },
            };
            Ok(User { id: hexstr::encode_bytes(&b), transactions: Vec::new(), wallets: Vec::new() })
        }
    }

    /// Rebuilds a user from its persisted parts.
    pub fn from_parts(id: String, transactions: Vec<TransactionRole>, wallets: Vec<String>) -> (r:
        User)
        ensures
            r.id == id,
            r.transactions == transactions,
            r.wallets == wallets,
    {
        User { id, transactions, wallets }
    }

    /// The loaded user when one was persisted, else a fresh one under the
    /// given id.
    pub fn get(id: &String, loaded: Option<User>) -> (r: Result<User, Error>)
        ensures
            match loaded {
                Some(u) => r == Result::<User, Error>::Ok(u),
                None => match r {
                    Ok(u) => {
                        &&& u.transactions@.len() == 0
                        &&& u.wallets@.len() == 0
                        &&& if id@.len() > 0 {
                            u.id@ == id@
                        } else {
                            exists|b: Seq<u8>|
                                #![auto]
                                b.len() == 64 && u.id@ == hexstr::hex_of_bytes(b)
                        }
                    },
                    Err(e) => e == Error::Upstream && id@.len() == 0,
                },
            },
    {
        match loaded {
            Some(u) => Ok(u),
            None => User::new(id),
        }
    }

    /// Records a wallet as owned by this user and this user as an owner of
    /// the wallet: both sides of the link are written, or neither.
    ///
    /// Returns `AlreadyExists` exactly when either side already records the
    /// link.
    pub fn add_wallet(&mut self, wallet: &mut Wallet) -> (r: Result<(), Error>)
        ensures
            match r {
                Ok(()) => {
                    &&& !str_has(old(self).wallets@, old(wallet).eth_address@)
                    &&& !str_has(old(wallet).users@, old(self).id@)
                    &&& final(self).wallets@.len() == old(self).wallets@.len() + 1
                    &&& final(self).wallets@[old(self).wallets@.len() as int]@ == old(
                        wallet,
                    ).eth_address@
                    &&& final(self).wallets@.take(old(self).wallets@.len() as int) == old(self).wallets@
                    &&& final(self).id == old(self).id
                    &&& final(self).transactions == old(self).transactions
                    &&& final(wallet).users@.len() == old(wallet).users@.len() + 1
                    &&& final(wallet).users@[old(wallet).users@.len() as int]@ == old(self).id@
                    &&& final(wallet).users@.take(old(wallet).users@.len() as int) == old(
                        wallet,
                    ).users@
                    &&& crate::wallet::unchanged_but_users(old(wallet), final(wallet))
                },
                Err(e) => {
                    &&& e == Error::AlreadyExists
                    &&& (str_has(old(self).wallets@, old(wallet).eth_address@) || str_has(
                        old(wallet).users@,
                        old(self).id@,
                    ))
                    &&& *final(self) == *old(self)
                    &&& *final(wallet) == *old(wallet)
                },
            },
    {
        let addr = wallet.get_eth_address();
        if find_str(&self.wallets, &addr).is_some() {
            proof {
                lemma_str_idx(old(self).wallets@, addr@);
            }
            return Err(Error::AlreadyExists);
        }
        wallet.add_user(&self.id)?;
        self.wallets.push(addr);
        Ok(())
    }

    /// Records a transaction membership under a role.
    ///
    /// Returns `AlreadyExists` exactly when the same `(transaction, role)`
    /// pair is already recorded.
    pub fn add_transaction(&mut self, transaction_id: &String, role: RoleType) -> (r: Result<
        (),
        Error,
    >)
        ensures
            match r {
                Ok(()) => {
                    &&& !has_pair(old(self).transactions@, transaction_id@, role)
                    &&& final(self).transactions@.len() == old(self).transactions@.len() + 1
                    &&& final(self).transactions@[old(self).transactions@.len() as int].transaction_id@
                        == transaction_id@
                    &&& final(self).transactions@[old(self).transactions@.len() as int].role
                        == role
                    &&& final(self).transactions@.take(old(self).transactions@.len() as int)
                        == old(self).transactions@
                    &&& final(self).id == old(self).id
                    &&& final(self).wallets == old(self).wallets
                },
                Err(e) => e == Error::AlreadyExists && has_pair(
                    old(self).transactions@,
                    transaction_id@,
                    role,
                ) && *final(self) == *old(self),
            },
    {
        let mut i: usize = 0;
        while i < self.transactions.len()
            invariant
                i <= self.transactions@.len(),
                forall|j: int|
                    0 <= j < i ==> !((#[trigger] self.transactions@[j]).transaction_id@
                        == transaction_id@ && self.transactions@[j].role == role),
            decreases self.transactions@.len() - i,
        {
            if self.transactions[i].transaction_id.eq(transaction_id) && self.transactions[i].role
                == role {
                return Err(Error::AlreadyExists);
            }
            i = i + 1;
        }
        self.transactions.push(
            TransactionRole { transaction_id: transaction_id.clone(), role },
        );
        Ok(())
    }

    /// Whether this user names the transaction under any role.
    pub fn is_member_of(&self, transaction_id: &String) -> (r: bool)
        ensures
            r == has_tx(self.transactions@, transaction_id@),
    {
        let mut i: usize = 0;
        while i < self.transactions.len()
            invariant
                i <= self.transactions@.len(),
                forall|j: int|
                    0 <= j < i ==> (#[trigger] self.transactions@[j]).transaction_id@
                        != transaction_id@,
            decreases self.transactions@.len() - i,
        {
            if self.transactions[i].transaction_id.eq(transaction_id) {
                return true;
            }
            i = i + 1;
        }
        false
    }

    /// Whether this user names the transaction under the given role.
    pub fn has_role(&self, transaction_id: &String, role: RoleType) -> (r: bool)
        ensures
            r == has_pair(self.transactions@, transaction_id@, role),
    {
        let mut i: usize = 0;
        while i < self.transactions.len()
            invariant
                i <= self.transactions@.len(),
                forall|j: int|
                    0 <= j < i ==> !((#[trigger] self.transactions@[j]).transaction_id@
                        == transaction_id@ && self.transactions@[j].role == role),
            decreases self.transactions@.len() - i,
        {
            if self.transactions[i].transaction_id.eq(transaction_id) && self.transactions[i].role
                == role {
                return true;
            }
            i = i + 1;
        }
        false
    }

    /// Whether this user owns the wallet at `address`.
    pub fn owns_wallet(&self, address: &String) -> (r: bool)
        ensures
            r == str_has(self.wallets@, address@),
    {
        proof {
            lemma_str_idx(self.wallets@, address@);
        }
        find_str(&self.wallets, address).is_some()
    }

    /// The addresses of the wallets this user owns.
    pub fn get_wallets(&self) -> (r: Vec<String>)
        ensures
            r@.len() == self.wallets@.len(),
            forall|i: int| 0 <= i < r@.len() ==> (#[trigger] r@[i])@ == self.wallets@[i]@,
    {
        let mut out: Vec<String> = Vec::new();
        let mut i: usize = 0;
        while i < self.wallets.len()
            invariant
                i <= self.wallets@.len(),
                out@.len() == i,
                forall|j: int| 0 <= j < i ==> (#[trigger] out@[j])@ == self.wallets@[j]@,
            decreases self.wallets@.len() - i,
        {
            out.push(self.wallets[i].clone());
            i = i + 1;
        }
        out
    }

    /// The transaction memberships of this user.
    pub fn get_transactions(&self) -> (r: Vec<TransactionRole>)
        ensures
            r@.len() == self.transactions@.len(),
            forall|i: int|
                0 <= i < r@.len() ==> (#[trigger] r@[i]).transaction_id@
                    == self.transactions@[i].transaction_id@ && r@[i].role
                    == self.transactions@[i].role,
    {
        let mut out: Vec<TransactionRole> = Vec::new();
        let mut i: usize = 0;
        while i < self.transactions.len()
            invariant
                i <= self.transactions@.len(),
                out@.len() == i,
                forall|j: int|
                    0 <= j < i ==> (#[trigger] out@[j]).transaction_id@
                        == self.transactions@[j].transaction_id@ && out@[j].role
                        == self.transactions@[j].role,
            decreases self.transactions@.len() - i,
        {
            out.push(
                TransactionRole {
                    transaction_id: self.transactions[i].transaction_id.clone(),
                    role: self.transactions[i].role,
                },
            );
            i = i + 1;
        }
        out
    }

    /// The membership list, by reference.
    pub fn transactions_ref(&self) -> (r: &Vec<TransactionRole>)
        ensures
            r == &self.transactions,
    {
        &self.transactions
    }

    /// The wallet list, by reference.
    pub fn wallets_ref(&self) -> (r: &Vec<String>)
        ensures
            r == &self.wallets,
    {
        &self.wallets
    }
}

} // verus!
