//! The registry of EVM networks.
//!
//! Operators register networks by unique name, each carrying the JSON-RPC
//! connection parameters and the chain id used for signing.  Chain id and
//! gas price stay adjustable without re-registration.

use crate::errors::Error;
use vstd::prelude::*;

verus! {

/// One registered EVM network.
pub struct Network {
    pub name: String,
    pub chain_id: Option<u64>,
    pub rpc_url: String,
    pub gas_price: Option<u64>,
    pub credentials: Option<String>,
}

/// The catalog of registered networks, unique by name.
pub struct Networks {
    pub list: Vec<Network>,
}

/// The first index whose network is named `name`, or -1 if none is.
pub open spec fn network_idx(s: Seq<Network>, name: Seq<char>) -> int
    decreases s.len(),
{
    if s.len() == 0 {
        -1
    } else if s[0].name@ == name {
        0
    } else {
        let r = network_idx(s.drop_first(), name);
        if r == -1 {
            -1
        } else {
            r + 1
        }
    }
}

/// `network_idx` finds the first matching entry, and -1 exactly when none
/// matches.
pub proof fn lemma_network_idx(s: Seq<Network>, name: Seq<char>)
    ensures
        -1 <= network_idx(s, name) < s.len(),
        network_idx(s, name) >= 0 ==> s[network_idx(s, name)].name@ == name,
        forall|j: int|
            0 <= j < s.len() && (#[trigger] s[j]).name@ == name ==> network_idx(s, name) >= 0
                && network_idx(s, name) <= j,
    decreases s.len(),
{
    if s.len() > 0 && s[0].name@ != name {
        lemma_network_idx(s.drop_first(), name);
        assert(forall|j: int| 1 <= j < s.len() ==> (#[trigger] s[j]) == s.drop_first()[j - 1]);
    }
}

impl Network {
    /// Builds a network entry from its parameters.
    pub fn new(
        name: String,
        chain_id: Option<u64>,
        rpc_url: String,
        gas_price: Option<u64>,
        credentials: Option<String>,
    ) -> (r: Network)
        ensures
            r.name == name,
            r.chain_id == chain_id,
            r.rpc_url == rpc_url,
            r.gas_price == gas_price,
            r.credentials == credentials,
    {
        Network { name, chain_id, rpc_url, gas_price, credentials }
    }
}

impl Networks {
    /// An empty catalog.
    pub fn new() -> (r: Networks)
        ensures
            r.list@.len() == 0,
    {
        Networks { list: Vec::new() }
    }

    /// Finds the position of a network by name.
    pub fn find(&self, name: &String) -> (r: Option<usize>)
        ensures
            match r {
                Some(i) => i < self.list@.len() && network_idx(self.list@, name@) == i,
                None => network_idx(self.list@, name@) == -1,
            },
    {
        proof {
            lemma_network_idx(self.list@, name@);
        }
        let mut i: usize = 0;
        while i < self.list.len()
            invariant
                i <= self.list@.len(),
                forall|j: int| 0 <= j < i ==> (#[trigger] self.list@[j]).name@ != name@,
            decreases self.list@.len() - i,
        {
            if self.list[i].name.eq(name) {
                proof {
                    lemma_network_idx(self.list@, name@);
                }
                return Some(i);
            }
            i = i + 1;
        }
        None
    }

    /// Registers a network.
    ///
    /// Returns `AlreadyExists` exactly when a network of that name is
    /// already registered.
    pub fn add_network(&mut self, network: Network) -> (r: Result<(), Error>)
        ensures
            match r {
                Ok(()) => network_idx(old(self).list@, network.name@) == -1 && final(self).list@
                    == old(self).list@.push(network),
                Err(e) => e == Error::AlreadyExists && network_idx(old(self).list@, network.name@)
                    >= 0 && *final(self) == *old(self),
            },
    {
        if self.find(&network.name).is_some() {
            return Err(Error::AlreadyExists);
        }
        self.list.push(network);
        Ok(())
    }

    /// Removes a network by name.
    ///
    /// Returns `NotFound` exactly when no network of that name is
    /// registered.
    pub fn remove_network(&mut self, name: &String) -> (r: Result<(), Error>)
        ensures
            match r {
                Ok(()) => {
                    let i = network_idx(old(self).list@, name@);
                    i >= 0 && final(self).list@ == old(self).list@.remove(i)
                },
                Err(e) => e == Error::NotFound && network_idx(old(self).list@, name@) == -1
                    && *final(self) == *old(self),
            },
    {
        match self.find(name) {
            Some(i) => {
                self.list.remove(i);
                Ok(())
            },
            None => Err(Error::NotFound),
        }
    }

    /// Sets the chain id of a registered network.
    ///
    /// Returns `NotFound` exactly when no network of that name is
    /// registered.
    pub fn update_chain_id(&mut self, name: &String, chain_id: u64) -> (r: Result<(), Error>)
        ensures
            update_field_spec(old(self), final(self), name@, r),
            r is Ok ==> {
                let i = network_idx(old(self).list@, name@);
                final(self).list@[i].chain_id == Some(chain_id) && final(self).list@[i].gas_price
                    == old(self).list@[i].gas_price
            },
    {
        match self.find(name) {
            Some(i) => {
                let e = &self.list[i];
                let updated = Network {
                    name: e.name.clone(),
                    chain_id: Some(chain_id),
                    rpc_url: e.rpc_url.clone(),
                    gas_price: e.gas_price,
                    credentials: clone_opt(&e.credentials),
                };
                self.list.set(i, updated);
                Ok(())
            },
            None => Err(Error::NotFound),
        }
    }

    /// Sets the gas price of a registered network.
    ///
    /// Returns `NotFound` exactly when no network of that name is
    /// registered.
    pub fn update_gas_price(&mut self, name: &String, gas_price: u64) -> (r: Result<(), Error>)
        ensures
            update_field_spec(old(self), final(self), name@, r),
            r is Ok ==> {
                let i = network_idx(old(self).list@, name@);
                final(self).list@[i].gas_price == Some(gas_price) && final(self).list@[i].chain_id
                    == old(self).list@[i].chain_id
            },
    {
        match self.find(name) {
            Some(i) => {
                let e = &self.list[i];
                let updated = Network {
                    name: e.name.clone(),
                    chain_id: e.chain_id,
                    rpc_url: e.rpc_url.clone(),
                    gas_price: Some(gas_price),
                    credentials: clone_opt(&e.credentials),
                };
                self.list.set(i, updated);
                Ok(())
            },
            None => Err(Error::NotFound),
        }
    }

    /// The registered networks.
    pub fn get_networks(&self) -> (r: &Vec<Network>)
        ensures
            r == &self.list,
    {
        &self.list
    }

    /// Looks a network up by name.
    ///
    /// Returns the registered entry exactly when one of that name exists.
    pub fn load(&self, name: &String) -> (r: Option<&Network>)
        ensures
            match r {
                Some(n) => {
                    let i = network_idx(self.list@, name@);
                    i >= 0 && *n == self.list@[i]
                },
                None => network_idx(self.list@, name@) == -1,
            },
    {
        match self.find(name) {
            Some(i) => Some(&self.list[i]),
            None => None,
        }
    }
}

/// Clones an optional string, keeping its view.
fn clone_opt(s: &Option<String>) -> (r: Option<String>)
    ensures
        match s {
            Some(x) => r is Some && r.unwrap()@ == x@,
            None => r is None,
        },
{
    match s {
        Some(x) => Some(x.clone()),
        None => None,
    }
}

/// Everything about the catalog is kept except that the named entry's
/// mutable parameters may change: names, urls and credentials keep their
/// views, and every other entry is untouched.
pub open spec fn update_field_spec(
    old_r: &Networks,
    new_r: &Networks,
    name: Seq<char>,
    r: Result<(), Error>,
) -> bool {
    let i = network_idx(old_r.list@, name);
    match r {
        Ok(()) => {
            &&& i >= 0
            &&& new_r.list@.len() == old_r.list@.len()
            &&& new_r.list@[i].name@ == old_r.list@[i].name@
            &&& new_r.list@[i].rpc_url@ == old_r.list@[i].rpc_url@
            &&& opt_view_eq(new_r.list@[i].credentials, old_r.list@[i].credentials)
            &&& forall|j: int|
                0 <= j < old_r.list@.len() && j != i ==> new_r.list@[j] == old_r.list@[j]
        },
        Err(e) => e == Error::NotFound && i == -1 && new_r == old_r,
    }
}

/// Two optional strings hold the same text.
pub open spec fn opt_view_eq(a: Option<String>, b: Option<String>) -> bool {
    match (a, b) {
        (Some(x), Some(y)) => x@ == y@,
        (None, None) => true,
        _ => false,
    }
}

/// Registering a network and loading it back by name yields an entry whose
/// fields all equal what was registered.
pub proof fn lemma_network_round_trip(before: Networks, after: Networks, network: Network)
    requires
        network_idx(before.list@, network.name@) == -1,
        after.list@ == before.list@.push(network),
    ensures
        network_idx(after.list@, network.name@) >= 0,
        after.list@[network_idx(after.list@, network.name@)] == network,
{
    lemma_network_idx_push(before.list@, network);
}

/// Pushing an entry whose name is absent makes it the first match.
proof fn lemma_network_idx_push(s: Seq<Network>, network: Network)
    requires
        network_idx(s, network.name@) == -1,
    ensures
        network_idx(s.push(network), network.name@) == s.len(),
    decreases s.len(),
{
    lemma_network_idx(s, network.name@);
    if s.len() == 0 {
        assert(s.push(network)[0] == network);
    } else {
        assert(s[0].name@ != network.name@);
        lemma_network_idx(s.drop_first(), network.name@);
        assert(network_idx(s.drop_first(), network.name@) == -1);
        assert(s.push(network).drop_first() =~= s.drop_first().push(network));
        lemma_network_idx_push(s.drop_first(), network);
        assert(s.push(network)[0] == s[0]);
    }
}

} // verus!
