//! Wallet custody.
//!
//! A wallet holds a secp256k1 keypair, a per-network balance book, and the
//! back-references to its users and transactions.  Balance operations are
//! specified against the mathematical values of the 256-bit amounts; each
//! mutating operation returns a deterministic attestation string that
//! uniquely identifies the balance transition.

use crate::address;
use crate::amount::{pow256, amount_bytes, Amount};
use crate::crypto;
use crate::errors::Error;
use crate::hexstr;
use vstd::prelude::*;

verus! {

/// The balance book of one wallet on one network.
pub struct NetworkBalance {
    pub network_name: String,
    pub free: Amount,
    pub locked: Amount,
}

/// A custodial wallet.
pub struct Wallet {
    pub eth_address: String,
    pub secret_key: String,
    pub public_key: String,
    pub networks: Vec<NetworkBalance>,
    pub users: Vec<String>,
    pub transactions: Vec<String>,
}

/// The first index whose entry is named `name`, or -1 if none is.
pub open spec fn net_idx(s: Seq<NetworkBalance>, name: Seq<char>) -> int
    decreases s.len(),
{
    if s.len() == 0 {
        -1
    } else if s[0].network_name@ == name {
        0
    } else {
        let r = net_idx(s.drop_first(), name);
        if r == -1 {
            -1
        } else {
            r + 1
        }
    }
}

/// `net_idx` finds the first matching entry, and -1 exactly when none
/// matches.
pub proof fn lemma_net_idx(s: Seq<NetworkBalance>, name: Seq<char>)
    ensures
        -1 <= net_idx(s, name) < s.len(),
        net_idx(s, name) >= 0 ==> s[net_idx(s, name)].network_name@ == name,
        forall|j: int|
            0 <= j < s.len() && (#[trigger] s[j]).network_name@ == name ==> net_idx(s, name) >= 0
                && net_idx(s, name) <= j,
    decreases s.len(),
{
    if s.len() > 0 && s[0].network_name@ != name {
        lemma_net_idx(s.drop_first(), name);
        assert(forall|j: int|
            1 <= j < s.len() ==> (#[trigger] s[j]) == s.drop_first()[j - 1]);
    }
}

/// Law: on every network binding of any wallet, the sum of the free and
/// locked balances never goes below zero.  Balances are unsigned 256-bit
/// values, and every debiting operation fails with `Underflow` rather than
/// wrap.
pub proof fn lemma_balances_nonnegative(w: Wallet)
    ensures
        forall|i: int|
            0 <= i < w.networks@.len() ==> (#[trigger] w.networks@[i]).free.as_nat()
                + w.networks@[i].locked.as_nat() >= 0,
{
}

/// Two balance books with the same names at every position resolve every
/// network to the same position.
pub proof fn lemma_net_idx_same_names(s1: Seq<NetworkBalance>, s2: Seq<NetworkBalance>, name: Seq<char>)
    requires
        s1.len() == s2.len(),
        forall|i: int|
            0 <= i < s1.len() ==> (#[trigger] s2[i]).network_name@ == s1[i].network_name@,
    ensures
        net_idx(s1, name) == net_idx(s2, name),
    decreases s1.len(),
{
    if s1.len() > 0 {
        assert(forall|i: int|
            0 <= i < s1.drop_first().len() ==> (#[trigger] s2.drop_first()[i]) == s2[i + 1]
                && s1.drop_first()[i] == s1[i + 1]);
        lemma_net_idx_same_names(s1.drop_first(), s2.drop_first(), name);
    }
}

/// The first index of `x` in a string list, or -1 if it is absent.
pub open spec fn str_idx(s: Seq<String>, x: Seq<char>) -> int
    decreases s.len(),
{
    if s.len() == 0 {
        -1
    } else if s[0]@ == x {
        0
    } else {
        let r = str_idx(s.drop_first(), x);
        if r == -1 {
            -1
        } else {
            r + 1
        }
    }
}

/// Whether a string list holds `x`.
pub open spec fn str_has(s: Seq<String>, x: Seq<char>) -> bool {
    exists|i: int| 0 <= i < s.len() && (#[trigger] s[i])@ == x
}

/// `str_idx` is nonnegative exactly when the list holds the string.
pub proof fn lemma_str_idx(s: Seq<String>, x: Seq<char>)
    ensures
        -1 <= str_idx(s, x) < s.len(),
        str_idx(s, x) >= 0 ==> s[str_idx(s, x)]@ == x,
        (str_idx(s, x) >= 0) <==> str_has(s, x),
        forall|j: int|
            0 <= j < s.len() && (#[trigger] s[j])@ == x ==> str_idx(s, x) >= 0 && str_idx(s, x)
                <= j,
    decreases s.len(),
{
    if s.len() > 0 && s[0]@ != x {
        lemma_str_idx(s.drop_first(), x);
        assert(forall|j: int| 1 <= j < s.len() ==> (#[trigger] s[j]) == s.drop_first()[j - 1]);
        if str_has(s, x) {
            let i = choose|i: int| 0 <= i < s.len() && (#[trigger] s[i])@ == x;
            assert(s.drop_first()[i - 1]@ == x);
        }
        if str_idx(s.drop_first(), x) >= 0 {
            assert(s[str_idx(s, x)]@ == x);
        }
    }
}

/// Finds the position of `x` in a string list.
pub fn find_str(v: &Vec<String>, x: &String) -> (r: Option<usize>)
    ensures
        match r {
            Some(i) => i < v@.len() && str_idx(v@, x@) == i,
            None => !str_has(v@, x@),
        },
{
    proof {
        lemma_str_idx(v@, x@);
    }
    let mut i: usize = 0;
    while i < v.len()
        invariant
            i <= v@.len(),
            forall|j: int| 0 <= j < i ==> (#[trigger] v@[j])@ != x@,
        decreases v@.len() - i,
    {
        if v[i].eq(x) {
            proof {
                lemma_str_idx(v@, x@);
            }
            return Some(i);
        }
        i = i + 1;
    }
    None
}

/// The deterministic attestation string for one balance transition.
pub open spec fn attestation_chars(
    op: Seq<char>,
    network: Seq<char>,
    address: Seq<char>,
    value_hex: Seq<char>,
    timestamp: Seq<char>,
    free_hex: Seq<char>,
    locked_hex: Seq<char>,
) -> Seq<char> {
    op + "|"@ + network + "|"@ + address + "|0x"@ + value_hex + "|"@ + timestamp + "|0x"@
        + free_hex + "|0x"@ + locked_hex
}

/// Builds the attestation string for a balance transition.
fn build_attestation(
    op: &str,
    network: &String,
    address: &String,
    value: &Amount,
    timestamp: &String,
    free: &Amount,
    locked: &Amount,
) -> (r: String)
    ensures
        r@ == attestation_chars(
            op@,
            network@,
            address@,
            hexstr::hex_of_bytes(amount_bytes(*value)),
            timestamp@,
            hexstr::hex_of_bytes(amount_bytes(*free)),
            hexstr::hex_of_bytes(amount_bytes(*locked)),
        ),
{
    let mut out = String::from_str(op);
    out.append("|");
    out.append(network.as_str());
    out.append("|");
    out.append(address.as_str());
    out.append("|0x");
    let vh = value.to_hex();
    out.append(vh.as_str());
    out.append("|");
    out.append(timestamp.as_str());
    out.append("|0x");
    let fh = free.to_hex();
    out.append(fh.as_str());
    out.append("|0x");
    let lh = locked.to_hex();
    out.append(lh.as_str());
    out
}

impl Wallet {
    /// Builds a wallet from a hex secret key and hex public key; the
    /// address is derived from the public key.
    ///
    /// Returns `BadRequest` exactly when the public key is not the hex
    /// rendering of 65 bytes.
    pub fn new(secret_key: &String, public_key: &String) -> (r: Result<Wallet, Error>)
        ensures
            match r {
                Ok(w) => {
                    &&& hexstr::bytes_of_hex_ok(public_key@)
                    &&& hexstr::bytes_of_hex(public_key@).len() == 65
                    &&& w.eth_address@ == address::eth_address_chars(
                        hexstr::bytes_of_hex(public_key@),
                    )
                    &&& w.secret_key@ == secret_key@
                    &&& w.public_key@ == public_key@
                    &&& w.networks@.len() == 0
                    &&& w.users@.len() == 0
                    &&& w.transactions@.len() == 0
                },
                Err(e) => e == Error::BadRequest && (!hexstr::bytes_of_hex_ok(public_key@)
                    || hexstr::bytes_of_hex(public_key@).len() != 65),
            },
    {
        let pk_bytes = match hexstr::decode_bytes(public_key.as_str()) {
            Some(b) => b,
            None => {
                return Err(Error::BadRequest);
            },
        };
        if pk_bytes.len() != 65 {
            return Err(Error::BadRequest);
        }
        let eth_address = address::eth_address_of_public_key(&pk_bytes);
        Ok(
            Wallet {
                eth_address,
                secret_key: secret_key.clone(),
                public_key: public_key.clone(),
                networks: Vec::new(),
                users: Vec::new(),
                transactions: Vec::new(),
            },
        )
    }

    /// The wallet's address.
    pub fn get_eth_address(&self) -> (r: String)
        ensures
            r@ == self.eth_address@,
    {
        self.eth_address.clone()
    }

    /// The wallet's secret key, hex encoded.
    pub fn get_secret_key(&self) -> (r: String)
        ensures
            r@ == self.secret_key@,
    {
        self.secret_key.clone()
    }

    /// The wallet's public key, hex encoded.
    pub fn get_public_key(&self) -> (r: String)
        ensures
            r@ == self.public_key@,
    {
        self.public_key.clone()
    }

    /// The wallet's balance book.
    pub fn get_networks(&self) -> (r: &Vec<NetworkBalance>)
        ensures
            r == &self.networks,
    {
        &self.networks
    }

    /// The users that own this wallet.
    pub fn get_users(&self) -> (r: &Vec<String>)
        ensures
            r == &self.users,
    {
        &self.users
    }

    /// The transactions this wallet takes part in.
    pub fn get_transactions(&self) -> (r: &Vec<String>)
        ensures
            r == &self.transactions,
    {
        &self.transactions
    }

    /// Finds the balance entry for a network.
    pub fn find_network(&self, network: &String) -> (r: Option<usize>)
        ensures
            match r {
                Some(i) => i < self.networks@.len() && net_idx(self.networks@, network@) == i,
                None => net_idx(self.networks@, network@) == -1,
            },
    {
        proof {
            lemma_net_idx(self.networks@, network@);
        }
        let mut i: usize = 0;
        while i < self.networks.len()
            invariant
                i <= self.networks@.len(),
                forall|j: int|
                    0 <= j < i ==> (#[trigger] self.networks@[j]).network_name@ != network@,
            decreases self.networks@.len() - i,
        {
            if self.networks[i].network_name.eq(network) {
                proof {
                    lemma_net_idx(self.networks@, network@);
                }
                return Some(i);
            }
            i = i + 1;
        }
        proof {
            lemma_net_idx(self.networks@, network@);
        }
        None
    }

    /// The local balance book for a network, if the wallet is bound to it.
    pub fn get_network_balance(&self, network: &String) -> (r: Option<(Amount, Amount)>)
        ensures
            match r {
                Some(b) => {
                    let i = net_idx(self.networks@, network@);
                    &&& i >= 0
                    &&& b.0 == self.networks@[i].free
                    &&& b.1 == self.networks@[i].locked
                },
                None => net_idx(self.networks@, network@) == -1,
            },
    {
        match self.find_network(network) {
            Some(i) => Some((self.networks[i].free, self.networks[i].locked)),
            None => None,
        }
    }

    /// Binds the wallet to a network with a zero balance book.
    ///
    /// Returns `AlreadyExists` exactly when the binding is already there.
    pub fn add_network(&mut self, network: &String) -> (r: Result<(), Error>)
        ensures
            match r {
                Ok(()) => {
                    &&& net_idx(old(self).networks@, network@) == -1
                    &&& final(self).networks@.len() == old(self).networks@.len() + 1
                    &&& final(self).networks@[old(self).networks@.len() as int].network_name@
                        == network@
                    &&& final(self).networks@[old(self).networks@.len() as int].free.as_nat() == 0
                    &&& final(self).networks@[old(self).networks@.len() as int].locked.as_nat()
                        == 0
                    &&& final(self).networks@.take(old(self).networks@.len() as int) == old(self).networks@
                    &&& unchanged_but_networks(old(self), final(self))
                },
                Err(e) => e == Error::AlreadyExists && net_idx(old(self).networks@, network@) >= 0
                    && *final(self) == *old(self),
            },
    {
        if self.find_network(network).is_some() {
            return Err(Error::AlreadyExists);
        }
        self.networks.push(
            NetworkBalance { network_name: network.clone(), free: Amount::zero(), locked: Amount::zero() },
        );
        Ok(())
    }

    /// Records that `value` of externally observed balance
    /// `balance_witness` is escrowed: `free` becomes the witness minus the
    /// value and `locked` grows by the value.
    ///
    /// Fails `NotFound` without a binding, `Underflow` when the value
    /// exceeds the witness, and `Overflow` when `locked` would leave the
    /// 256-bit range.
    pub fn lock(
        &mut self,
        network: &String,
        value: Amount,
        balance_witness: Amount,
        timestamp: &String,
    ) -> (r: Result<String, Error>)
        ensures
            lock_spec(old(self), final(self), network@, value, balance_witness, timestamp@, r),
    {
        let i = match self.find_network(network) {
            Some(i) => i,
            None => {
                return Err(Error::NotFound);
            },
        };
        let free = match balance_witness.checked_sub(value) {
            Some(f) => f,
            None => {
                return Err(Error::Underflow);
            },
        };
        let locked = match self.networks[i].locked.checked_add(value) {
            Some(l) => l,
            None => {
                return Err(Error::Overflow);
            },
        };
        let name = self.networks[i].network_name.clone();
        self.networks.set(i, NetworkBalance { network_name: name, free, locked });
        Ok(build_attestation("lock", network, &self.eth_address, &value, timestamp, &free, &locked))
    }

    /// Releases `value` from `locked` back into `free`.
    ///
    /// Fails `NotFound` without a binding, `Underflow` when the value
    /// exceeds `locked`, and `Overflow` when `free` would leave the 256-bit
    /// range.
    pub fn unlock(&mut self, network: &String, value: Amount, timestamp: &String) -> (r: Result<
        String,
        Error,
    >)
        ensures
            unlock_spec(old(self), final(self), network@, value, timestamp@, r),
    {
        let i = match self.find_network(network) {
            Some(i) => i,
            None => {
                return Err(Error::NotFound);
            },
        };
        let locked = match self.networks[i].locked.checked_sub(value) {
            Some(l) => l,
            None => {
                return Err(Error::Underflow);
            },
        };
        let free = match self.networks[i].free.checked_add(value) {
            Some(f) => f,
            None => {
                return Err(Error::Overflow);
            },
        };
        let name = self.networks[i].network_name.clone();
        self.networks.set(i, NetworkBalance { network_name: name, free, locked });
        Ok(
            build_attestation(
                "unlock",
                network,
                &self.eth_address,
                &value,
                timestamp,
                &free,
                &locked,
            ),
        )
    }

    /// Credits `value` to `free`.
    ///
    /// Fails `NotFound` without a binding and `Overflow` when `free` would
    /// leave the 256-bit range.
    pub fn mint(&mut self, network: &String, value: &Amount) -> (r: Result<(), Error>)
        ensures
            mint_spec(old(self), final(self), network@, *value, r),
    {
        let i = match self.find_network(network) {
            Some(i) => i,
            None => {
                return Err(Error::NotFound);
            },
        };
        let free = match self.networks[i].free.checked_add(*value) {
            Some(f) => f,
            None => {
                return Err(Error::Overflow);
            },
        };
        let name = self.networks[i].network_name.clone();
        let locked = self.networks[i].locked;
        self.networks.set(i, NetworkBalance { network_name: name, free, locked });
        Ok(())
    }

    /// Debits `value` from `free`.
    ///
    /// Fails `NotFound` without a binding and `Underflow` when the value
    /// exceeds `free`.
    pub fn burn(&mut self, network: &String, value: &Amount) -> (r: Result<(), Error>)
        ensures
            burn_spec(old(self), final(self), network@, *value, r),
    {
        let i = match self.find_network(network) {
            Some(i) => i,
            None => {
                return Err(Error::NotFound);
            },
        };
        let free = match self.networks[i].free.checked_sub(*value) {
            Some(f) => f,
            None => {
                return Err(Error::Underflow);
            },
        };
        let name = self.networks[i].network_name.clone();
        let locked = self.networks[i].locked;
        self.networks.set(i, NetworkBalance { network_name: name, free, locked });
        Ok(())
    }

    /// Signs a type-2 transaction against a registered network and returns
    /// the hex-rendered broadcast envelope, `0x`-prefixed, for the host to
    /// submit over the network's JSON-RPC endpoint.
    ///
    /// Fails `NotFound` exactly when the network is not registered,
    /// `Internal` exactly when the stored secret key is not hex, and
    /// `BadRequest` exactly when the key bytes are no valid secret scalar.
    pub fn sign_transaction(
        &self,
        networks: &crate::network::Networks,
        network_name: &String,
        tx: &crate::eip1559::Eip1559Tx,
    ) -> (r: Result<String, Error>)
        ensures
            r is Ok <==> crate::network::network_idx(networks.list@, network_name@) >= 0
                && hexstr::bytes_of_hex_ok(self.secret_key@) && crypto::secp256k1_scalar_ok(
                hexstr::bytes_of_hex(self.secret_key@),
            ),
            match r {
                Ok(raw) => ({
                    let sb = hexstr::bytes_of_hex(self.secret_key@);
                    let sig = crypto::secp256k1_sig_of(
                        sb,
                        crypto::keccak_of(crate::eip1559::signing_payload_bytes(tx)),
                    );
                    raw@ == "0x"@ + hexstr::hex_of_bytes(
                        crate::eip1559::envelope_bytes(tx, sig.2, sig.0, sig.1),
                    )
                }),
                Err(e) => {
                    if crate::network::network_idx(networks.list@, network_name@) == -1 {
                        e == Error::NotFound
                    } else if !hexstr::bytes_of_hex_ok(self.secret_key@) {
                        e == Error::Internal
                    } else {
                        e == Error::BadRequest && !crypto::secp256k1_scalar_ok(
                            hexstr::bytes_of_hex(self.secret_key@),
                        )
                    }
                },
            },
    {
        if networks.find(network_name).is_none() {
            return Err(Error::NotFound);
        }
        let sb = match hexstr::decode_bytes(self.secret_key.as_str()) {
            Some(b) => b,
            None => {
                return Err(Error::Internal);
            },
        };
        let env = match crate::eip1559::sign_transaction(tx, &sb) {
            Ok(env) => env,
            Err(e) => {
                return Err(e);
            },
        };
        let mut out = String::from_str("0x");
        let enc = hexstr::encode_bytes(&env);
        out.append(enc.as_str());
        Ok(out)
    }

    /// Records a user as an owner of this wallet.
    ///
    /// Returns `AlreadyExists` exactly when the user is already recorded.
    pub fn add_user(&mut self, id: &String) -> (r: Result<(), Error>)
        ensures
            match r {
                Ok(()) => !str_has(old(self).users@, id@) && final(self).users@.len() == old(self).users@.len() + 1 && final(self).users@[old(self).users@.len() as int]@ == id@
                    && final(self).users@.take(old(self).users@.len() as int) == old(self).users@
                    && unchanged_but_users(old(self), final(self)),
                Err(e) => e == Error::AlreadyExists && str_has(old(self).users@, id@) && *final(self) == *old(self),
            },
    {
        if find_str(&self.users, id).is_some() {
            proof {
                lemma_str_idx(old(self).users@, id@);
            }
            return Err(Error::AlreadyExists);
        }
        self.users.push(id.clone());
        Ok(())
    }

    /// Records a transaction this wallet takes part in.
    ///
    /// Returns `AlreadyExists` exactly when the transaction is already
    /// recorded.
    pub fn add_transaction(&mut self, tx_id: &String) -> (r: Result<(), Error>)
        ensures
            match r {
                Ok(()) => !str_has(old(self).transactions@, tx_id@) && final(self).transactions@.len() == old(self).transactions@.len() + 1 && final(self).transactions@[old(self).transactions@.len() as int]@ == tx_id@ && final(self).transactions@.take(old(self).transactions@.len() as int) == old(self).transactions@ && unchanged_but_transactions(old(self), final(self)),
                Err(e) => e == Error::AlreadyExists && str_has(old(self).transactions@, tx_id@)
                    && *final(self) == *old(self),
            },
    {
        if find_str(&self.transactions, tx_id).is_some() {
            proof {
                lemma_str_idx(old(self).transactions@, tx_id@);
            }
            return Err(Error::AlreadyExists);
        }
        self.transactions.push(tx_id.clone());
        Ok(())
    }
}

/// Derives a keypair as hex strings: either from a given hex secret key, or
/// freshly from host entropy.
///
/// With a given secret, `Ok` carries the secret string as given and the hex
/// of the public key derived from it; `BadRequest` reports a secret that is
/// not valid hex of a valid scalar.  Without one, `Ok` carries the hex of
/// some 32 entropy bytes and of their derived public key; `Upstream`
/// reports an entropy failure.
pub fn generate_keypair(secret: Option<&String>) -> (r: Result<(String, String), Error>)
    ensures
        secret matches Some(s) ==> (r is Ok <==> hexstr::bytes_of_hex_ok(s@)
            && crypto::secp256k1_scalar_ok(hexstr::bytes_of_hex(s@))),
        match r {
            Ok(kp) => match secret {
                Some(s) => {
                    &&& hexstr::bytes_of_hex_ok(s@)
                    &&& crypto::secp256k1_scalar_ok(hexstr::bytes_of_hex(s@))
                    &&& kp.0@ == s@
                    &&& kp.1@ == hexstr::hex_of_bytes(
                        crypto::secp256k1_pubkey_of(hexstr::bytes_of_hex(s@)),
                    )
                    &&& crypto::secp256k1_pubkey_of(hexstr::bytes_of_hex(s@)).len() == 65
                },
                None => exists|sb: Seq<u8>|
                    #![auto]
                    sb.len() == 32 && crypto::secp256k1_scalar_ok(sb) && kp.0@
                        == hexstr::hex_of_bytes(sb) && kp.1@ == hexstr::hex_of_bytes(
                        crypto::secp256k1_pubkey_of(sb),
                    ) && crypto::secp256k1_pubkey_of(sb).len() == 65,
            },
            Err(e) => match secret {
                Some(_) => e == Error::BadRequest,
                None => e == Error::Upstream,
            },
        },
{
    match secret {
        Some(s) => {
            let sb = match hexstr::decode_bytes(s.as_str()) {
                Some(b) => b,
                None => {
                    return Err(Error::BadRequest);
                },
            };
            let pk = match crypto::derive_public_key(&sb) {
                Some(pk) => pk,
                None => {
                    return Err(Error::BadRequest);
                },
            };
            Ok((s.clone(), hexstr::encode_bytes(&pk)))
        },
        None => {
            let mut attempts: usize = 0;
            while attempts < 64
                invariant
                    attempts <= 64,
                    secret is None,
                decreases 64 - attempts,
            {
                let sb = match crypto::random_bytes(32) {
                    Some(b) => b,
                    None => {
                        return Err(Error::Upstream);
                    },
                };
                if let Some(pk) = crypto::derive_public_key(&sb) {
                    let sk_hex = hexstr::encode_bytes(&sb);
                    let pk_hex = hexstr::encode_bytes(&pk);
                    proof {
                        assert(sb@.len() == 32 && sk_hex@ == hexstr::hex_of_bytes(sb@) && pk_hex@
                            == hexstr::hex_of_bytes(crypto::secp256k1_pubkey_of(sb@))
                            && crypto::secp256k1_pubkey_of(sb@).len() == 65);
                    }
                    return Ok((sk_hex, pk_hex));
                }
                attempts = attempts + 1;
            }
            Err(Error::Upstream)
        },
    }
}

/// All fields but the balance book are equal.
pub open spec fn unchanged_but_networks(a: &Wallet, b: &Wallet) -> bool {
    &&& a.eth_address == b.eth_address
    &&& a.secret_key == b.secret_key
    &&& a.public_key == b.public_key
    &&& a.users == b.users
    &&& a.transactions == b.transactions
}

/// All fields but the user back-references are equal.
pub open spec fn unchanged_but_users(a: &Wallet, b: &Wallet) -> bool {
    &&& a.eth_address == b.eth_address
    &&& a.secret_key == b.secret_key
    &&& a.public_key == b.public_key
    &&& a.networks == b.networks
    &&& a.transactions == b.transactions
}

/// All fields but the transaction back-references are equal.
pub open spec fn unchanged_but_transactions(a: &Wallet, b: &Wallet) -> bool {
    &&& a.eth_address == b.eth_address
    &&& a.secret_key == b.secret_key
    &&& a.public_key == b.public_key
    &&& a.networks == b.networks
    &&& a.users == b.users
}

/// One balance entry was replaced, everything else kept.
pub open spec fn balance_updated(
    old_w: &Wallet,
    new_w: &Wallet,
    i: int,
    free: nat,
    locked: nat,
) -> bool {
    &&& unchanged_but_networks(old_w, new_w)
    &&& new_w.networks@.len() == old_w.networks@.len()
    &&& new_w.networks@[i].network_name@ == old_w.networks@[i].network_name@
    &&& new_w.networks@[i].free.as_nat() == free
    &&& new_w.networks@[i].locked.as_nat() == locked
    &&& forall|j: int|
        0 <= j < old_w.networks@.len() && j != i ==> new_w.networks@[j] == old_w.networks@[j]
}

/// The contract of [`Wallet::lock`].
pub open spec fn lock_spec(
    old_w: &Wallet,
    new_w: &Wallet,
    network: Seq<char>,
    value: Amount,
    witness: Amount,
    timestamp: Seq<char>,
    r: Result<String, Error>,
) -> bool {
    let i = net_idx(old_w.networks@, network);
    match r {
        Ok(p) => {
            &&& i >= 0
            &&& value.as_nat() <= witness.as_nat()
            &&& old_w.networks@[i].locked.as_nat() + value.as_nat() < pow256()
            &&& balance_updated(
                old_w,
                new_w,
                i,
                (witness.as_nat() - value.as_nat()) as nat,
                old_w.networks@[i].locked.as_nat() + value.as_nat(),
            )
            &&& p@ == attestation_chars(
                "lock"@,
                network,
                old_w.eth_address@,
                hexstr::hex_of_bytes(amount_bytes(value)),
                timestamp,
                hexstr::hex_of_bytes(amount_bytes(new_w.networks@[i].free)),
                hexstr::hex_of_bytes(amount_bytes(new_w.networks@[i].locked)),
            )
        },
        Err(e) => {
            &&& new_w == old_w
            &&& if i < 0 {
                e == Error::NotFound
            } else if witness.as_nat() < value.as_nat() {
                e == Error::Underflow
            } else {
                e == Error::Overflow && old_w.networks@[i].locked.as_nat() + value.as_nat()
                    >= pow256()
            }
        },
    }
}

/// The contract of [`Wallet::unlock`].
pub open spec fn unlock_spec(
    old_w: &Wallet,
    new_w: &Wallet,
    network: Seq<char>,
    value: Amount,
    timestamp: Seq<char>,
    r: Result<String, Error>,
) -> bool {
    let i = net_idx(old_w.networks@, network);
    match r {
        Ok(p) => {
            &&& i >= 0
            &&& value.as_nat() <= old_w.networks@[i].locked.as_nat()
            &&& old_w.networks@[i].free.as_nat() + value.as_nat() < pow256()
            &&& balance_updated(
                old_w,
                new_w,
                i,
                old_w.networks@[i].free.as_nat() + value.as_nat(),
                (old_w.networks@[i].locked.as_nat() - value.as_nat()) as nat,
            )
            &&& p@ == attestation_chars(
                "unlock"@,
                network,
                old_w.eth_address@,
                hexstr::hex_of_bytes(amount_bytes(value)),
                timestamp,
                hexstr::hex_of_bytes(amount_bytes(new_w.networks@[i].free)),
                hexstr::hex_of_bytes(amount_bytes(new_w.networks@[i].locked)),
            )
        },
        Err(e) => {
            &&& new_w == old_w
            &&& if i < 0 {
                e == Error::NotFound
            } else if old_w.networks@[i].locked.as_nat() < value.as_nat() {
                e == Error::Underflow
            } else {
                e == Error::Overflow && old_w.networks@[i].free.as_nat() + value.as_nat()
                    >= pow256()
            }
        },
    }
}

/// The contract of [`Wallet::mint`].
pub open spec fn mint_spec(
    old_w: &Wallet,
    new_w: &Wallet,
    network: Seq<char>,
    value: Amount,
    r: Result<(), Error>,
) -> bool {
    let i = net_idx(old_w.networks@, network);
    match r {
        Ok(()) => {
            &&& i >= 0
            &&& old_w.networks@[i].free.as_nat() + value.as_nat() < pow256()
            &&& balance_updated(
                old_w,
                new_w,
                i,
                old_w.networks@[i].free.as_nat() + value.as_nat(),
                old_w.networks@[i].locked.as_nat(),
            )
        },
        Err(e) => {
            &&& new_w == old_w
            &&& if i < 0 {
                e == Error::NotFound
            } else {
                e == Error::Overflow && old_w.networks@[i].free.as_nat() + value.as_nat()
                    >= pow256()
            }
        },
    }
}

/// The contract of [`Wallet::burn`].
pub open spec fn burn_spec(
    old_w: &Wallet,
    new_w: &Wallet,
    network: Seq<char>,
    value: Amount,
    r: Result<(), Error>,
) -> bool {
    let i = net_idx(old_w.networks@, network);
    match r {
        Ok(()) => {
            &&& i >= 0
            &&& value.as_nat() <= old_w.networks@[i].free.as_nat()
            &&& balance_updated(
                old_w,
                new_w,
                i,
                (old_w.networks@[i].free.as_nat() - value.as_nat()) as nat,
                old_w.networks@[i].locked.as_nat(),
            )
        },
        Err(e) => {
            &&& new_w == old_w
            &&& if i < 0 {
                e == Error::NotFound
            } else {
                e == Error::Underflow && old_w.networks@[i].free.as_nat() < value.as_nat()
            }
        },
    }
}

} // verus!
