//! The flat index of created transactions.

use crate::errors::Error;
use crate::transaction::Transaction;
use crate::wallet::{find_str, lemma_str_idx, str_has};
use vstd::prelude::*;

verus! {

/// The list of transaction ids, unique.
pub struct Transactions {
    pub list: Vec<String>,
}

/// The first index of the transaction with the given id in a table, or -1
/// if none has it.
pub open spec fn tx_idx(s: Seq<Transaction>, id: Seq<char>) -> int
    decreases s.len(),
{
    if s.len() == 0 {
        -1
    } else if s[0].id@ == id {
        0
    } else {
        let r = tx_idx(s.drop_first(), id);
        if r == -1 {
            -1
        } else {
            r + 1
        }
    }
}

/// `tx_idx` finds the first matching entry, and -1 exactly when none
/// matches.
pub proof fn lemma_tx_idx(s: Seq<Transaction>, id: Seq<char>)
    ensures
        -1 <= tx_idx(s, id) < s.len(),
        tx_idx(s, id) >= 0 ==> s[tx_idx(s, id)].id@ == id,
        forall|j: int|
            0 <= j < s.len() && (#[trigger] s[j]).id@ == id ==> tx_idx(s, id) >= 0 && tx_idx(
                s,
                id,
            ) <= j,
    decreases s.len(),
{
    if s.len() > 0 && s[0].id@ != id {
        lemma_tx_idx(s.drop_first(), id);
        assert(forall|j: int| 1 <= j < s.len() ==> (#[trigger] s[j]) == s.drop_first()[j - 1]);
    }
}

/// Finds the position of the transaction with the given id in a table.
pub fn find_tx(table: &Vec<Transaction>, id: &String) -> (r: Option<usize>)
    ensures
        match r {
            Some(i) => i < table@.len() && tx_idx(table@, id@) == i,
            None => tx_idx(table@, id@) == -1,
        },
{
    proof {
        lemma_tx_idx(table@, id@);
    }
    let mut i: usize = 0;
    while i < table.len()
        invariant
            i <= table@.len(),
            forall|j: int| 0 <= j < i ==> (#[trigger] table@[j]).id@ != id@,
        decreases table@.len() - i,
    {
        if table[i].id.eq(id) {
            proof {
                lemma_tx_idx(table@, id@);
            }
            return Some(i);
        }
        i = i + 1;
    }
    None
}

impl Transactions {
    /// An empty index.
    pub fn new() -> (r: Transactions)
        ensures
            r.list@.len() == 0,
    {
        Transactions { list: Vec::new() }
    }

    /// Rebuilds an index from its persisted ids.
    pub fn from_parts(list: Vec<String>) -> (r: Transactions)
        ensures
            r.list == list,
    {
        Transactions { list }
    }

    /// The loaded index when one was persisted, else an empty one.
    pub fn get(loaded: Option<Transactions>) -> (r: Transactions)
        ensures
            match loaded {
                Some(t) => r == t,
                None => r.list@.len() == 0,
            },
    {
        match loaded {
            Some(t) => t,
            None => Transactions::new(),
        }
    }

    /// Records a transaction id.
    ///
    /// Returns `AlreadyExists` exactly when the id is already recorded.
    pub fn add_transaction(&mut self, tx_id: &String) -> (r: Result<(), Error>)
        ensures
            match r {
                Ok(()) => {
                    &&& !str_has(old(self).list@, tx_id@)
                    &&& final(self).list@.len() == old(self).list@.len() + 1
                    &&& final(self).list@[old(self).list@.len() as int]@ == tx_id@
                    &&& final(self).list@.take(old(self).list@.len() as int) == old(self).list@
                },
                Err(e) => e == Error::AlreadyExists && str_has(old(self).list@, tx_id@) && *final(self) == *old(self),
            },
    {
        if find_str(&self.list, tx_id).is_some() {
            proof {
                lemma_str_idx(old(self).list@, tx_id@);
            }
            return Err(Error::AlreadyExists);
        }
        self.list.push(tx_id.clone());
        Ok(())
    }

    /// Looks a transaction up in the table, but only when its id is
    /// recorded in this index.
    pub fn get_transaction<'a>(&self, id: &String, table: &'a Vec<Transaction>) -> (r: Option<
        &'a Transaction,
    >)
        ensures
            match r {
                Some(t) => {
                    &&& str_has(self.list@, id@)
                    &&& tx_idx(table@, id@) >= 0
                    &&& *t == table@[tx_idx(table@, id@)]
                },
                None => !str_has(self.list@, id@) || tx_idx(table@, id@) == -1,
            },
    {
        proof {
            lemma_str_idx(self.list@, id@);
        }
        if find_str(&self.list, id).is_none() {
            return None;
        }
        match find_tx(table, id) {
            Some(i) => Some(&table[i]),
            None => None,
        }
    }

    /// The recorded transaction ids.
    pub fn get_transactions(&self) -> (r: &Vec<String>)
        ensures
            r == &self.list,
    {
        &self.list
    }
}

} // verus!
