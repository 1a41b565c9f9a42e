//! The flat index of created wallets.

use crate::errors::Error;
use vstd::prelude::*;

verus! {

/// One entry of the wallet index.
pub struct WalletCreationInfo {
    pub address: String,
    pub timestamp: String,
}

/// The list of created wallet addresses with their creation times, unique
/// by address.
pub struct Wallets {
    pub list: Vec<WalletCreationInfo>,
}

/// Whether the index holds an entry for `address`.
pub open spec fn has_address(s: Seq<WalletCreationInfo>, address: Seq<char>) -> bool {
    exists|i: int| 0 <= i < s.len() && (#[trigger] s[i]).address@ == address
}

impl Wallets {
    /// An empty index.
    pub fn new() -> (r: Wallets)
        ensures
            r.list@.len() == 0,
    {
        Wallets { list: Vec::new() }
    }

    /// Rebuilds an index from its persisted entries.
    pub fn from_parts(list: Vec<WalletCreationInfo>) -> (r: Wallets)
        ensures
            r.list == list,
    {
        Wallets { list }
    }

    /// The loaded index when one was persisted, else an empty one.
    pub fn get(loaded: Option<Wallets>) -> (r: Wallets)
        ensures
            match loaded {
                Some(w) => r == w,
                None => r.list@.len() == 0,
            },
    {
        match loaded {
            Some(w) => w,
            None => Wallets::new(),
        }
    }

    /// Records a created wallet address under its creation time.
    ///
    /// Returns `AlreadyExists` exactly when the address is already
    /// recorded.
    pub fn add_address(&mut self, address: &String, timestamp: &String) -> (r: Result<(), Error>)
        ensures
            match r {
                Ok(()) => {
                    &&& !has_address(old(self).list@, address@)
                    &&& final(self).list@.len() == old(self).list@.len() + 1
                    &&& final(self).list@[old(self).list@.len() as int].address@ == address@
                    &&& final(self).list@[old(self).list@.len() as int].timestamp@ == timestamp@
                    &&& final(self).list@.take(old(self).list@.len() as int) == old(self).list@
                },
                Err(e) => e == Error::AlreadyExists && has_address(old(self).list@, address@)
                    && *final(self) == *old(self),
            },
    {
        let mut i: usize = 0;
        while i < self.list.len()
            invariant
                i <= self.list@.len(),
                forall|j: int| 0 <= j < i ==> (#[trigger] self.list@[j]).address@ != address@,
            decreases self.list@.len() - i,
        {
            if self.list[i].address.eq(address) {
                return Err(Error::AlreadyExists);
            }
            i = i + 1;
        }
        self.list.push(
            WalletCreationInfo { address: address.clone(), timestamp: timestamp.clone() },
        );
        Ok(())
    }

    /// Whether the index holds an entry for `address`.
    pub fn has(&self, address: &String) -> (r: bool)
        ensures
            r == has_address(self.list@, address@),
    {
        let mut i: usize = 0;
        while i < self.list.len()
            invariant
                i <= self.list@.len(),
                forall|j: int| 0 <= j < i ==> (#[trigger] self.list@[j]).address@ != address@,
            decreases self.list@.len() - i,
        {
            if self.list[i].address.eq(address) {
                return true;
            }
            i = i + 1;
        }
        false
    }

    /// The recorded entries.
    pub fn get_list_address(&self) -> (r: &Vec<WalletCreationInfo>)
        ensures
            r == &self.list,
    {
        &self.list
    }
}

} // verus!
