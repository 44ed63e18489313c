//! Wallet: named accounts with view and spend key pairs, their unspent
//! outputs and balances.
use vstd::prelude::*;
use crate::errors::WalletError;
use crate::hash::{blake3_of, copy_bytes};
use crate::keys::KeyPair;
use crate::stealth::generate_keypair_ed25519;
use vstd::utf8::{decode_utf8, decode_utf8_encode_utf8, encode_utf8, valid_utf8};
use crate::codec::{enc_bytes, put_bytes};
use crate::decode::{lemma_reads_join, parse_bytes};

verus! {

/// Wallet format version.
pub const WALLET_VERSION: u32 = 1;

/// Amount of the output that a scan records.
pub const SCANNED_OUTPUT_AMOUNT: u64 = 1000;

/// A public address: the view and spend public keys.
#[derive(Clone, Debug, PartialEq, Eq)]
pub struct Address {
    /// View public key.
    pub view_public: Vec<u8>,
    /// Spend public key.
    pub spend_public: Vec<u8>,
}

/// A named account with its view and spend key pairs.
#[derive(Clone, Debug)]
pub struct Account {
    /// Name, unique within a wallet.
    pub name: String,
    view_keypair: KeyPair,
    spend_keypair: KeyPair,
    /// Public address.
    pub address: Address,
}

/// An unspent output owned by an account.
#[derive(Clone, Debug)]
pub struct Utxo {
    /// Transaction holding the output.
    pub tx_hash: [u8; 32],
    /// Index of the output.
    pub index: u32,
    /// Amount.
    pub amount: u64,
    /// Key image of the output.
    pub key_image: Vec<u8>,
}

/// Counts describing a wallet.
#[derive(Debug, Clone)]
pub struct WalletStats {
    /// Number of accounts.
    pub total_accounts: usize,
    /// Index of the active account.
    pub active_account: usize,
    /// Balance of the active account.
    pub total_balance: u64,
    /// Number of unspent outputs over all accounts.
    pub total_utxos: usize,
}

impl Utxo {
    /// A copy of this output.
    pub fn duplicate(&self) -> (r: Utxo)
        ensures
            r.tx_hash == self.tx_hash,
            r.index == self.index,
            r.amount == self.amount,
            r.key_image@ == self.key_image@,
    {
        Utxo {
            tx_hash: self.tx_hash,
            index: self.index,
            amount: self.amount,
            key_image: copy_bytes(self.key_image.as_slice()),
        }
    }
}

impl Account {
    /// The name.
    pub closed spec fn name_view(&self) -> Seq<char> {
        self.name@
    }

    /// The address's view and spend public keys.
    pub closed spec fn address_view(&self) -> (Seq<u8>, Seq<u8>) {
        (self.address.view_public@, self.address.spend_public@)
    }

    /// The view key pair.
    pub closed spec fn view_spec(&self) -> KeyPair {
        self.view_keypair
    }

    /// The spend key pair.
    pub closed spec fn spend_spec(&self) -> KeyPair {
        self.spend_keypair
    }

    /// An account named `name` over the two key pairs; its address holds
    /// their public keys.
    pub fn from_keypairs(name: String, view_keypair: KeyPair, spend_keypair: KeyPair) -> (r: Account)
        ensures
            r.name_view() == name@,
            r.address_view() == (view_keypair.public_spec(), spend_keypair.public_spec()),
            r.view_spec() == view_keypair,
            r.spend_spec() == spend_keypair,
    {
        let address = Address {
            view_public: copy_bytes(view_keypair.public_key()),
            spend_public: copy_bytes(spend_keypair.public_key()),
        };
        Account { name, view_keypair, spend_keypair, address }
    }

    /// A fresh account named "default".
    pub fn generate() -> (r: Account)
        ensures
            r.name_view() == "default"@,
    {
        Account::generate_with_name("default".to_string())
    }

    /// A fresh account named `name`, with Ed25519 view and spend key pairs.
    pub fn generate_with_name(name: String) -> (r: Account)
        ensures
            r.name_view() == name@,
    {
        let (view_private, view_public) = generate_keypair_ed25519();
        let (spend_private, spend_public) = generate_keypair_ed25519();
        let view = KeyPair::from_parts(view_public, view_private);
        let spend = KeyPair::from_parts(spend_public, spend_private);
        Account::from_keypairs(name, view, spend)
    }

    /// The view private key.
    pub fn view_private_key(&self) -> (r: &[u8])
        ensures
            r@ == self.view_spec().private_spec(),
    {
        self.view_keypair.private_key()
    }

    /// The view public key.
    pub fn view_public_key(&self) -> (r: &[u8])
        ensures
            r@ == self.view_spec().public_spec(),
    {
        self.view_keypair.public_key()
    }

    /// The spend private key.
    pub fn spend_private_key(&self) -> (r: &[u8])
        ensures
            r@ == self.spend_spec().private_spec(),
    {
        self.spend_keypair.private_key()
    }

    /// The spend public key.
    pub fn spend_public_key(&self) -> (r: &[u8])
        ensures
            r@ == self.spend_spec().public_spec(),
    {
        self.spend_keypair.public_key()
    }

    /// The public address.
    pub fn get_address(&self) -> (r: &Address)
        ensures
            (r.view_public@, r.spend_public@) == self.address_view(),
    {
        &self.address
    }
}

/// Sum of the outputs' amounts.
pub open spec fn utxo_total(s: Seq<Utxo>) -> int
    decreases s.len(),
{
    if s.len() == 0 {
        0
    } else {
        utxo_total(s.drop_last()) + s.last().amount
    }
}

/// A balance: the sum of the amounts, saturating at `u64::MAX`.
pub open spec fn balance_of(s: Seq<Utxo>) -> u64 {
    if utxo_total(s) > u64::MAX {
        u64::MAX
    } else {
        utxo_total(s) as u64
    }
}

/// Accounts, the active one, and each account's outputs and cached balance.
pub struct Wallet {
    accounts: Vec<Account>,
    active_account: usize,
    utxos: Vec<Vec<Utxo>>,
    balance_cache: Vec<Option<u64>>,
}

impl Wallet {
    /// Number of accounts.
    pub closed spec fn count(&self) -> nat {
        self.accounts@.len()
    }

    /// Account `i`.
    pub closed spec fn account_at(&self, i: int) -> Account {
        self.accounts@[i]
    }

    /// Name of account `i`.
    pub closed spec fn name_at(&self, i: int) -> Seq<char> {
        self.accounts@[i].name@
    }

    /// Index of the active account.
    pub closed spec fn active(&self) -> usize {
        self.active_account
    }

    /// Outputs of account `i`.
    pub closed spec fn utxos_at(&self, i: int) -> Seq<Utxo> {
        self.utxos@[i]@
    }

    /// Number of outputs of the first `n` accounts.
    pub open spec fn utxo_count(&self, n: int) -> int
        decreases n,
    {
        if n <= 0 {
            0
        } else {
            self.utxo_count(n - 1) + self.utxos_at(n - 1).len()
        }
    }

    /// Whether an account is named `name`.
    pub open spec fn has_account(&self, name: Seq<char>) -> bool {
        exists|i: int| 0 <= i < self.count() && self.name_at(i) == name
    }

    /// Names are unique, the per-account lists line up with the accounts,
    /// and every cached balance is current.
    pub closed spec fn wf(&self) -> bool {
        &&& self.utxos@.len() == self.accounts@.len()
        &&& self.balance_cache@.len() == self.accounts@.len()
        &&& forall|i: int, j: int| 0 <= i < j < self.accounts@.len() ==> self.accounts@[i].name@ != self.accounts@[j].name@
        &&& forall|i: int|
            0 <= i < self.accounts@.len() ==> (#[trigger] self.balance_cache@[i] matches Some(b) ==> b == balance_of(self.utxos@[i]@))
    }

    /// A wallet without accounts.
    pub fn new() -> (r: Wallet)
        ensures
            r.wf(),
            r.count() == 0,
            r.active() == 0,
    {
        Wallet { accounts: Vec::new(), active_account: 0, utxos: Vec::new(), balance_cache: Vec::new() }
    }

    /// A wallet with one fresh account named "default".
    pub fn with_default_account() -> (r: Wallet)
        ensures
            r.wf(),
            r.count() == 1,
            r.name_at(0) == "default"@,
            r.active() == 0,
            r.utxos_at(0).len() == 0,
    {
        let mut wallet = Wallet::new();
        let account = Account::generate();
        let _ = wallet.add_account(account);
        wallet
    }

    /// Position of the account named `name`.
    fn find(&self, name: &str) -> (r: Option<usize>)
        ensures
            r is None <==> !self.has_account(name@),
            r matches Some(i) ==> i < self.count() && self.name_at(i as int) == name@,
    {
        let owned = name.to_owned();
        let mut i: usize = 0;
        while i < self.accounts.len()
            invariant
                owned@ == name@,
                0 <= i <= self.accounts@.len(),
                forall|j: int| 0 <= j < i ==> self.accounts@[j].name@ != name@,
            decreases self.accounts@.len() - i,
        {
            if self.accounts[i].name == owned {
                assert(self.name_at(i as int) == name@);
                return Some(i);
            }
            i += 1;
        }
        None
    }

    /// Adds `account`; fails with `AccountExists` where its name is taken.
    pub fn add_account(&mut self, account: Account) -> (r: Result<(), WalletError>)
        requires
            old(self).wf(),
        ensures
            final(self).wf(),
            old(self).has_account(account.name_view()) ==> (r matches Err(WalletError::AccountExists(n)) && n@ == account.name_view())
                && *final(self) == *old(self),
            !old(self).has_account(account.name_view()) ==> {
                &&& r is Ok
                &&& final(self).count() == old(self).count() + 1
                &&& final(self).name_at(old(self).count() as int) == account.name_view()
                &&& final(self).utxos_at(old(self).count() as int).len() == 0
                &&& final(self).active() == old(self).active()
                &&& forall|i: int| 0 <= i < old(self).count() ==> #[trigger] final(self).name_at(i) == old(self).name_at(i)
                    && final(self).utxos_at(i) == old(self).utxos_at(i)
            },
    {
        if self.find(account.name.as_str()).is_some() {
            let n = account.name.clone();
            return Err(WalletError::AccountExists(n));
        }
        let ghost name = account.name_view();
        self.accounts.push(account);
        self.utxos.push(Vec::new());
        self.balance_cache.push(None);
        proof {
            assert forall|i: int, j: int| 0 <= i < j < self.accounts@.len() implies self.accounts@[i].name@ != self.accounts@[j].name@ by {
                if j == old(self).accounts@.len() {
                    assert(old(self).name_at(i) != name);
                }
            }
        }
        Ok(())
    }

    /// The active account; fails with `AccountNotFound` where there is none.
    pub fn get_active_account(&self) -> (r: Result<&Account, WalletError>)
        requires
            self.wf(),
        ensures
            r is Ok <==> self.active() < self.count(),
            r is Err ==> r matches Err(WalletError::AccountNotFound(_)),
            r matches Ok(a) ==> a.name_view() == self.name_at(self.active() as int),
    {
        if self.active_account < self.accounts.len() {
            Ok(&self.accounts[self.active_account])
        } else {
            Err(WalletError::AccountNotFound("No active account".to_string()))
        }
    }

    /// The account named `name`; fails with `AccountNotFound` where there is none.
    pub fn get_account(&self, name: &str) -> (r: Result<&Account, WalletError>)
        requires
            self.wf(),
        ensures
            r is Ok <==> self.has_account(name@),
            r matches Ok(a) ==> a.name_view() == name@,
    {
        match self.find(name) {
            Some(i) => Ok(&self.accounts[i]),
            None => Err(WalletError::AccountNotFound("Account not found".to_string())),
        }
    }

    /// Makes account `index` active; fails with `AccountNotFound` on an index out of range.
    pub fn set_active_account(&mut self, index: usize) -> (r: Result<(), WalletError>)
        requires
            old(self).wf(),
        ensures
            final(self).wf(),
            r is Ok <==> index < old(self).count(),
            r is Err ==> r matches Err(WalletError::AccountNotFound(_)),
            r is Ok ==> final(self).active() == index && final(self).count() == old(self).count()
                && forall|i: int| 0 <= i < old(self).count() ==> #[trigger] final(self).name_at(i) == old(self).name_at(i)
                && final(self).utxos_at(i) == old(self).utxos_at(i),
            r is Err ==> *final(self) == *old(self),
    {
        if index >= self.accounts.len() {
            return Err(WalletError::AccountNotFound("Invalid account index".to_string()));
        }
        self.active_account = index;
        Ok(())
    }

    /// Makes the account named `name` active; fails with `AccountNotFound` where there is none.
    pub fn set_active_account_by_name(&mut self, name: &str) -> (r: Result<(), WalletError>)
        requires
            old(self).wf(),
        ensures
            final(self).wf(),
            r is Ok <==> old(self).has_account(name@),
            r is Ok ==> final(self).active() < final(self).count() && final(self).name_at(final(self).active() as int) == name@,
            r is Err ==> (r matches Err(WalletError::AccountNotFound(_))) && *final(self) == *old(self),
            final(self).count() == old(self).count(),
    {
        match self.find(name) {
            Some(i) => {
                self.active_account = i;
                Ok(())
            },
            None => Err(WalletError::AccountNotFound("Account not found".to_string())),
        }
    }

    /// Number of accounts.
    pub fn account_count(&self) -> (r: usize)
        ensures
            r == self.count(),
    {
        self.accounts.len()
    }

    /// Names of the accounts, in order.
    pub fn list_accounts(&self) -> (r: Vec<String>)
        ensures
            r@.len() == self.count(),
            forall|i: int| 0 <= i < self.count() ==> #[trigger] r@[i]@ == self.name_at(i),
    {
        let mut r: Vec<String> = Vec::new();
        let mut i: usize = 0;
        while i < self.accounts.len()
            invariant
                0 <= i <= self.accounts@.len(),
                r@.len() == i,
                forall|j: int| 0 <= j < i ==> #[trigger] r@[j]@ == self.accounts@[j].name@,
            decreases self.accounts@.len() - i,
        {
            r.push(self.accounts[i].name.clone());
            i += 1;
        }
        r
    }

    /// Balance of account `i`, computed from its outputs.
    fn calculate_balance(&self, i: usize) -> (r: u64)
        requires
            self.wf(),
            i < self.count(),
        ensures
            r == balance_of(self.utxos_at(i as int)),
    {
        let list = &self.utxos[i];
        let ghost s = list@;
        let mut total: u64 = 0;
        let mut saturated = false;
        let mut k: usize = 0;
        while k < list.len()
            invariant
                s == list@,
                0 <= k <= s.len(),
                !saturated ==> total == utxo_total(s.take(k as int)),
                saturated ==> total == u64::MAX && utxo_total(s.take(k as int)) > u64::MAX,
            decreases s.len() - k,
        {
            assert(s.take(k + 1).drop_last() =~= s.take(k as int));
            if !saturated {
                if total > u64::MAX - list[k].amount {
                    saturated = true;
                    total = u64::MAX;
                } else {
                    total = total + list[k].amount;
                }
            }
            k += 1;
        }
        assert(s.take(s.len() as int) =~= s);
        proof {
            if saturated {
                lemma_utxo_total_prefix(s, k as int);
            }
        }
        total
    }

    /// Balance of the active account, zero where there is none.
    pub fn get_balance(&self) -> (r: u64)
        requires
            self.wf(),
        ensures
            self.active() < self.count() ==> r == balance_of(self.utxos_at(self.active() as int)),
            self.active() >= self.count() ==> r == 0,
    {
        if self.active_account >= self.accounts.len() {
            return 0;
        }
        match self.balance_cache[self.active_account] {
            Some(b) => b,
            None => self.calculate_balance(self.active_account),
        }
    }

    /// Balance of the account named `name`; fails with `AccountNotFound` where there is none.
    pub fn get_balance_for_account(&self, name: &str) -> (r: Result<u64, WalletError>)
        requires
            self.wf(),
        ensures
            r is Ok <==> self.has_account(name@),
            r matches Ok(b) ==> exists|i: int| 0 <= i < self.count() && self.name_at(i) == name@ && b == balance_of(self.utxos_at(i)),
    {
        match self.find(name) {
            Some(i) => Ok(self.calculate_balance(i)),
            None => Err(WalletError::AccountNotFound("Account not found".to_string())),
        }
    }

    /// Records `utxo` for the account named `account_name`; fails with
    /// `AccountNotFound` where there is none.
    pub fn add_utxo(&mut self, account_name: &str, utxo: Utxo) -> (r: Result<(), WalletError>)
        requires
            old(self).wf(),
        ensures
            final(self).wf(),
            r is Ok <==> old(self).has_account(account_name@),
            r is Err ==> *final(self) == *old(self),
            final(self).count() == old(self).count(),
            final(self).active() == old(self).active(),
            forall|i: int| 0 <= i < old(self).count() ==> #[trigger] final(self).name_at(i) == old(self).name_at(i),
            forall|i: int| 0 <= i < old(self).count() ==> #[trigger] final(self).utxos_at(i) == if old(self).name_at(i) == account_name@ {
                old(self).utxos_at(i).push(utxo)
            } else {
                old(self).utxos_at(i)
            },
    {
        match self.find(account_name) {
            None => Err(WalletError::AccountNotFound("Account not found".to_string())),
            Some(i) => {
                let ghost u = utxo;
                self.utxos[i].push(utxo);
                self.balance_cache.set(i, None);
                proof {
                    assert forall|j: int| 0 <= j < old(self).count() && j != i implies old(self).name_at(j) != account_name@ by {
                        if j < i {} else {}
                    }
                }
                Ok(())
            },
        }
    }

    /// Copies of the outputs of the account named `account_name`; none where there is no such account.
    pub fn get_utxos(&self, account_name: &str) -> (r: Vec<Utxo>)
        requires
            self.wf(),
        ensures
            !self.has_account(account_name@) ==> r@.len() == 0,
            forall|i: int| 0 <= i < self.count() && self.name_at(i) == account_name@ ==> r@.len() == self.utxos_at(i).len()
                && forall|k: int| 0 <= k < r@.len() ==> (#[trigger] r@[k]).amount == self.utxos_at(i)[k].amount,
    {
        match self.find(account_name) {
            None => Vec::new(),
            Some(i) => {
                let list = &self.utxos[i];
                let mut r: Vec<Utxo> = Vec::new();
                let mut k: usize = 0;
                while k < list.len()
                    invariant
                        0 <= k <= list@.len(),
                        r@.len() == k,
                        forall|m: int| 0 <= m < k ==> (#[trigger] r@[m]).amount == list@[m].amount,
                    decreases list@.len() - k,
                {
                    r.push(list[k].duplicate());
                    k += 1;
                }
                proof {
                    assert forall|j: int| 0 <= j < self.count() && self.name_at(j) == account_name@ implies j == i by {
                        if j < i {} else if j > i {}
                    }
                }
                r
            },
        }
    }

    /// Records one scanned output of `SCANNED_OUTPUT_AMOUNT` for the active
    /// account and returns how many were found; fails with `AccountNotFound`
    /// where there is no active account.
    pub fn scan_outputs(&mut self) -> (r: Result<usize, WalletError>)
        requires
            old(self).wf(),
        ensures
            final(self).wf(),
            r is Ok <==> old(self).active() < old(self).count(),
            r is Err ==> (r matches Err(WalletError::AccountNotFound(_))) && *final(self) == *old(self),
            r matches Ok(n) ==> n == 1,
            final(self).count() == old(self).count(),
            final(self).active() == old(self).active(),
            r is Ok ==> final(self).utxos_at(old(self).active() as int).len() == old(self).utxos_at(old(self).active() as int).len() + 1
                && final(self).utxos_at(old(self).active() as int).drop_last() == old(self).utxos_at(old(self).active() as int)
                && final(self).utxos_at(old(self).active() as int).last().amount == SCANNED_OUTPUT_AMOUNT
                && final(self).utxos_at(old(self).active() as int).last().tx_hash@ == Seq::new(32, |j: int| 0u8)
                && final(self).utxos_at(old(self).active() as int).last().index == 0
                && final(self).utxos_at(old(self).active() as int).last().key_image@ == Seq::new(32, |j: int| 1u8),
            forall|i: int| 0 <= i < old(self).count() && i != old(self).active() ==> #[trigger] final(self).utxos_at(i) == old(self).utxos_at(i),
            forall|i: int| 0 <= i < old(self).count() ==> #[trigger] final(self).name_at(i) == old(self).name_at(i),
    {
        if self.active_account >= self.accounts.len() {
            return Err(WalletError::AccountNotFound("No active account".to_string()));
        }
        let i = self.active_account;
        let u = Utxo { tx_hash: [0u8; 32], index: 0, amount: SCANNED_OUTPUT_AMOUNT, key_image: vec![1u8; 32] };
        assert(u.tx_hash@ =~= Seq::new(32, |j: int| 0u8));
        assert(u.key_image@ =~= Seq::new(32, |j: int| 1u8));
        let ghost before = self.utxos@[i as int]@;
        self.utxos[i].push(u);
        self.balance_cache.set(i, None);
        assert(self.utxos@[i as int]@.drop_last() =~= before);
        Ok(1)
    }

    /// Whether a stealth address with the given ephemeral key belongs to the
    /// active account. Fails with `AccountNotFound` without an active account
    /// and with `CryptoError` where the keys do not decode.
    pub fn is_mine(&self, stealth_address: &[u8], ephemeral_pubkey: &[u8]) -> (r: Result<bool, WalletError>)
        requires
            self.wf(),
        ensures
            self.active() >= self.count() ==> r matches Err(WalletError::AccountNotFound(_)),
            r matches Ok(b) ==> self.active() < self.count() && b == (stealth_address@ == crate::stealth::point_add_of(
                self.account_at(self.active() as int).address_view().1,
                crate::stealth::base_mul_of(blake3_of(crate::stealth::point_mul_of(
                    blake3_of(self.account_at(self.active() as int).view_spec().private_spec()),
                    ephemeral_pubkey@,
                ))),
            )),
    {
        if self.active_account >= self.accounts.len() {
            return Err(WalletError::AccountNotFound("No active account".to_string()));
        }
        let account = &self.accounts[self.active_account];
        match crate::stealth::is_mine(stealth_address, account.view_private_key(), account.address.spend_public.as_slice(), ephemeral_pubkey) {
            Ok(b) => Ok(b),
            Err(_) => Err(WalletError::CryptoError("Stealth check failed".to_string())),
        }
    }

    /// Recomputes every cached balance.
    pub fn refresh_balance(&mut self)
        requires
            old(self).wf(),
        ensures
            final(self).wf(),
            final(self).count() == old(self).count(),
            final(self).active() == old(self).active(),
            forall|i: int| 0 <= i < old(self).count() ==> #[trigger] final(self).utxos_at(i) == old(self).utxos_at(i)
                && final(self).name_at(i) == old(self).name_at(i),
    {
        let mut i: usize = 0;
        while i < self.accounts.len()
            invariant
                self.wf(),
                0 <= i <= self.accounts@.len(),
                self.accounts@ == old(self).accounts@,
                self.utxos@ == old(self).utxos@,
                self.active_account == old(self).active_account,
            decreases self.accounts@.len() - i,
        {
            let b = self.calculate_balance(i);
            self.balance_cache.set(i, Some(b));
            i += 1;
        }
    }

    /// Account count, active index, active balance and total number of outputs.
    pub fn get_stats(&self) -> (r: WalletStats)
        requires
            self.wf(),
        ensures
            r.total_accounts == self.count(),
            r.active_account == self.active(),
            self.active() < self.count() ==> r.total_balance == balance_of(self.utxos_at(self.active() as int)),
            self.active() >= self.count() ==> r.total_balance == 0,
            r.total_utxos == if self.utxo_count(self.count() as int) > usize::MAX { usize::MAX as int } else { self.utxo_count(self.count() as int) },
    {
        let mut total_utxos: usize = 0;
        let mut i: usize = 0;
        while i < self.utxos.len()
            invariant
                self.wf(),
                0 <= i <= self.utxos@.len(),
                total_utxos == if self.utxo_count(i as int) > usize::MAX { usize::MAX as int } else { self.utxo_count(i as int) },
            decreases self.utxos@.len() - i,
        {
            total_utxos = if total_utxos > usize::MAX - self.utxos[i].len() {
                usize::MAX
            } else {
                total_utxos + self.utxos[i].len()
            };
            i += 1;
        }
        WalletStats {
            total_accounts: self.accounts.len(),
            active_account: self.active_account,
            total_balance: self.get_balance(),
            total_utxos,
        }
    }
}

/// A prefix of outputs never sums to more than the whole.
pub proof fn lemma_utxo_total_prefix(s: Seq<Utxo>, n: int)
    requires
        0 <= n <= s.len(),
    ensures
        utxo_total(s.take(n)) <= utxo_total(s),
    decreases s.len() - n,
{
    if n < s.len() {
        lemma_utxo_total_prefix(s, n + 1);
        assert(s.take(n + 1).drop_last() =~= s.take(n));
    } else {
        assert(s.take(n) =~= s);
    }
}

/// Relies on `String::from_utf8`: succeeds exactly on valid UTF-8 and keeps
/// the characters it encodes.
#[verifier::external_body]
fn utf8_string(bytes: Vec<u8>) -> (r: Option<String>)
    ensures
        r is Some <==> valid_utf8(bytes@),
        r matches Some(s) ==> s@ == decode_utf8(bytes@),
{
    String::from_utf8(bytes).ok()
}

/// Encoding of an account: name bytes, then the view and spend key pairs,
/// each length-prefixed.
pub open spec fn enc_account(name: Seq<u8>, view: KeyPair, spend: KeyPair) -> Seq<u8> {
    enc_bytes(name) + enc_bytes(view.public_spec()) + enc_bytes(view.private_spec()) + enc_bytes(
        spend.public_spec(),
    ) + enc_bytes(spend.private_spec())
}

impl Account {
    /// The name's UTF-8 bytes.
    pub closed spec fn name_bytes(&self) -> Seq<u8> {
        encode_utf8(self.name@)
    }

    /// The encoding of this account.
    pub fn to_bytes(&self) -> (r: Vec<u8>)
        ensures
            r@ == enc_account(self.name_bytes(), self.view_spec(), self.spend_spec()),
    {
        let mut out: Vec<u8> = Vec::new();
        put_bytes(&mut out, self.name.as_str().as_bytes());
        put_bytes(&mut out, self.view_public_key());
        put_bytes(&mut out, self.view_private_key());
        put_bytes(&mut out, self.spend_public_key());
        put_bytes(&mut out, self.spend_private_key());
        assert(out@ =~= enc_account(self.name_bytes(), self.view_spec(), self.spend_spec()));
        out
    }

    /// The account that `bytes` encode, where they encode one.
    pub fn from_bytes(bytes: &[u8]) -> (r: Option<Account>)
        ensures
            r matches Some(a) ==> bytes@ == enc_account(a.name_bytes(), a.view_spec(), a.spend_spec()),
    {
        let (name, p1) = match parse_bytes(bytes, 0) { Some(x) => x, None => { return None; } };
        let (vpub, p2) = match parse_bytes(bytes, p1) { Some(x) => x, None => { return None; } };
        let (vpriv, p3) = match parse_bytes(bytes, p2) { Some(x) => x, None => { return None; } };
        let (spub, p4) = match parse_bytes(bytes, p3) { Some(x) => x, None => { return None; } };
        let (spriv, p5) = match parse_bytes(bytes, p4) { Some(x) => x, None => { return None; } };
        if p5 != bytes.len() {
            return None;
        }
        let ghost nb = name@;
        let text = match utf8_string(name) { Some(s) => s, None => { return None; } };
        proof {
            lemma_reads_join(bytes@, 0, p1 as int, p2 as int, enc_bytes(nb), enc_bytes(vpub@));
            lemma_reads_join(bytes@, 0, p2 as int, p3 as int, enc_bytes(nb) + enc_bytes(vpub@), enc_bytes(vpriv@));
            lemma_reads_join(bytes@, 0, p3 as int, p4 as int, enc_bytes(nb) + enc_bytes(vpub@) + enc_bytes(vpriv@), enc_bytes(spub@));
            lemma_reads_join(bytes@, 0, p4 as int, p5 as int, enc_bytes(nb) + enc_bytes(vpub@) + enc_bytes(vpriv@) + enc_bytes(spub@), enc_bytes(spriv@));
            assert(bytes@.subrange(0, bytes@.len() as int) =~= bytes@);
        }
        let view = KeyPair::from_parts(vpub, vpriv);
        let spend = KeyPair::from_parts(spub, spriv);
        let a = Account::from_keypairs(text, view, spend);
        proof {
            decode_utf8_encode_utf8(nb);
            assert(a.name_bytes() == nb);
        }
        Some(a)
    }
}

} // verus!
