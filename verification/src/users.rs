//! The flat index of registered user ids.

use crate::errors::Error;
use crate::wallet::{find_str, lemma_str_idx, str_has, str_idx};
use vstd::prelude::*;

verus! {

/// The list of registered user ids, unique.
pub struct Users {
    pub list: Vec<String>,
}

impl Users {
    /// An empty index.
    pub fn new() -> (r: Users)
        ensures
            r.list@.len() == 0,
    {
        Users { list: Vec::new() }
    }

    /// The loaded index when one was persisted, else an empty one.
    pub fn get(loaded: Option<Users>) -> (r: Users)
        ensures
            match loaded {
                Some(u) => r == u,
                None => r.list@.len() == 0,
            },
    {
        match loaded {
            Some(u) => u,
            None => Users::new(),
        }
    }

    /// Registers a user id.
    ///
    /// Returns `AlreadyExists` exactly when the id is already registered.
    pub fn add_user(&mut self, id: &String) -> (r: Result<(), Error>)
        ensures
            match r {
                Ok(()) => {
                    &&& !str_has(old(self).list@, id@)
                    &&& final(self).list@.len() == old(self).list@.len() + 1
                    &&& final(self).list@[old(self).list@.len() as int]@ == id@
                    &&& final(self).list@.take(old(self).list@.len() as int) == old(self).list@
                },
                Err(e) => e == Error::AlreadyExists && str_has(old(self).list@, id@) && *final(self) == *old(self),
            },
    {
        if find_str(&self.list, id).is_some() {
            proof {
                lemma_str_idx(old(self).list@, id@);
            }
            return Err(Error::AlreadyExists);
        }
        self.list.push(id.clone());
        Ok(())
    }

    /// Removes a user id.
    ///
    /// Returns `NotFound` exactly when the id is not registered.
    pub fn remove_user(&mut self, id: &String) -> (r: Result<(), Error>)
        ensures
            match r {
                Ok(()) => {
                    let i = str_idx(old(self).list@, id@);
                    i >= 0 && final(self).list@ == old(self).list@.remove(i)
                },
                Err(e) => e == Error::NotFound && !str_has(old(self).list@, id@) && *final(self)
                    == *old(self),
            },
    {
        match find_str(&self.list, id) {
            Some(i) => {
                self.list.remove(i);
                Ok(())
            },
            None => Err(Error::NotFound),
        }
    }
}

} // verus!
