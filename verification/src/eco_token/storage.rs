//! Ledger state of the token and the reads and writes that the entry points
//! make on it.
use vstd::prelude::*;
use crate::ecotask_types::copy_bytes;
use crate::env::Address;
use crate::table::{Table, TableKey};

verus! {

/// Ledgers below which a persistent entry's lifetime is renewed.
pub const PERSISTENT_TTL_THRESHOLD: u32 = 100;

/// Ledgers a persistent entry is kept alive for after each write.
pub const PERSISTENT_TTL_EXTEND_TO: u32 = 4_096;

/// Ledgers below which the instance's lifetime is renewed.
pub const INSTANCE_TTL_THRESHOLD: u32 = 100;

/// Ledgers the instance is kept alive for (31 days at 5 s per ledger).
pub const INSTANCE_TTL_EXTEND_TO: u32 = 535_680;

/// An allowance granted by an owner to a spender, valid up to and including
/// `expiration_ledger`.
#[derive(Clone, Copy, PartialEq, Eq, Structural, Debug)]
pub struct Allowance {
    pub amount: i128,
    pub expiration_ledger: u32,
}

/// The key of an allowance: the owner of the tokens and the spender.
#[derive(Clone, Copy, PartialEq, Eq, Structural, Debug)]
pub struct AllowanceKey {
    pub owner: Address,
    pub spender: Address,
}

impl TableKey for AllowanceKey {
    fn key_eq(&self, other: &Self) -> (r: bool) {
        self.owner.0 == other.owner.0 && self.spender.0 == other.spender.0
    }
}

/// The token's ledger state, as mathematical values. An address without a
/// balance entry holds 0.
#[verifier::ext_equal]
pub struct TokenState {
    pub admin: Option<Address>,
    pub pending_admin: Option<Address>,
    pub minter: Option<Address>,
    /// Name, symbol and decimal places.
    pub metadata: Option<(Seq<u8>, Seq<u8>, u32)>,
    pub supply: i128,
    pub max_supply: Option<i128>,
    pub balances: Map<Address, i128>,
    pub allowances: Map<AllowanceKey, Allowance>,
}

impl TokenState {
    /// The balance of `a`: 0 when it has none stored.
    pub open spec fn balance(self, a: Address) -> i128 {
        if self.balances.contains_key(a) {
            self.balances[a]
        } else {
            0
        }
    }

    pub open spec fn with_balance(self, a: Address, amount: i128) -> TokenState {
        TokenState { balances: self.balances.insert(a, amount), ..self }
    }

    pub open spec fn with_supply(self, amount: i128) -> TokenState {
        TokenState { supply: amount, ..self }
    }

    pub open spec fn with_allowance(self, owner: Address, spender: Address, a: Allowance) -> TokenState {
        TokenState { allowances: self.allowances.insert(AllowanceKey { owner, spender }, a), ..self }
    }

    pub open spec fn without_allowance(self, owner: Address, spender: Address) -> TokenState {
        TokenState { allowances: self.allowances.remove(AllowanceKey { owner, spender }), ..self }
    }
}

/// The token's ledger storage.
pub struct TokenStorage {
    admin: Option<Address>,
    pending_admin: Option<Address>,
    minter: Option<Address>,
    metadata: Option<(Vec<u8>, Vec<u8>, u32)>,
    supply: i128,
    max_supply: Option<i128>,
    balances: Table<Address, i128>,
    allowances: Table<AllowanceKey, Allowance>,
}

impl View for TokenStorage {
    type V = TokenState;

    closed spec fn view(&self) -> TokenState {
        TokenState {
            admin: self.admin,
            pending_admin: self.pending_admin,
            minter: self.minter,
            metadata: match self.metadata {
                Some(m) => Some((m.0@, m.1@, m.2)),
                None => None,
            },
            supply: self.supply,
            max_supply: self.max_supply,
            balances: self.balances@,
            allowances: self.allowances@,
        }
    }
}

impl TokenStorage {
    pub closed spec fn wf(&self) -> bool {
        self.balances.wf() && self.allowances.wf()
    }

    /// Storage of a freshly deployed token: nothing written yet.
    pub fn new() -> (r: TokenStorage)
        ensures
            r.wf(),
            r@ == (TokenState {
                admin: None,
                pending_admin: None,
                minter: None,
                metadata: None,
                supply: 0,
                max_supply: None,
                balances: Map::empty(),
                allowances: Map::empty(),
            }),
    {
        TokenStorage {
            admin: None,
            pending_admin: None,
            minter: None,
            metadata: None,
            supply: 0,
            max_supply: None,
            balances: Table::new(),
            allowances: Table::new(),
        }
    }
}

/// Stores the balance of `addr`.
pub fn write_balance(s: &mut TokenStorage, addr: Address, amount: i128)
    requires
        old(s).wf(),
    ensures
        final(s).wf(),
        final(s)@ == old(s)@.with_balance(addr, amount),
{
    s.balances.insert(addr, amount);
}

/// The balance of `addr`, 0 when none is stored.
pub fn read_balance(s: &TokenStorage, addr: Address) -> (r: i128)
    requires
        s.wf(),
    ensures
        r == s@.balance(addr),
{
    match s.balances.get(&addr) {
        Some(b) => *b,
        None => 0,
    }
}

pub fn write_admin(s: &mut TokenStorage, admin: Address)
    requires
        old(s).wf(),
    ensures
        final(s).wf(),
        final(s)@ == (TokenState { admin: Some(admin), ..old(s)@ }),
{
    s.admin = Some(admin);
}

/// The admin; the token must have one.
pub fn read_admin(s: &TokenStorage) -> (r: Address)
    requires
        s@.admin is Some,
    ensures
        r == s@.admin.unwrap(),
{
    s.admin.unwrap()
}

pub fn has_admin(s: &TokenStorage) -> (r: bool)
    ensures
        r == s@.admin is Some,
{
    s.admin.is_some()
}

pub fn write_pending_admin(s: &mut TokenStorage, admin: Address)
    requires
        old(s).wf(),
    ensures
        final(s).wf(),
        final(s)@ == (TokenState { pending_admin: Some(admin), ..old(s)@ }),
{
    s.pending_admin = Some(admin);
}

pub fn read_pending_admin(s: &TokenStorage) -> (r: Option<Address>)
    ensures
        r == s@.pending_admin,
{
    s.pending_admin
}

pub fn remove_pending_admin(s: &mut TokenStorage)
    requires
        old(s).wf(),
    ensures
        final(s).wf(),
        final(s)@ == (TokenState { pending_admin: None, ..old(s)@ }),
{
    s.pending_admin = None;
}

pub fn write_minter(s: &mut TokenStorage, minter: Address)
    requires
        old(s).wf(),
    ensures
        final(s).wf(),
        final(s)@ == (TokenState { minter: Some(minter), ..old(s)@ }),
{
    s.minter = Some(minter);
}

/// The minter; the token must have one.
pub fn read_minter(s: &TokenStorage) -> (r: Address)
    requires
        s@.minter is Some,
    ensures
        r == s@.minter.unwrap(),
{
    s.minter.unwrap()
}

/// Stores name, symbol and decimal places.
pub fn write_metadata(s: &mut TokenStorage, name: Vec<u8>, symbol: Vec<u8>, decimal: u32)
    requires
        old(s).wf(),
    ensures
        final(s).wf(),
        final(s)@ == (TokenState { metadata: Some((name@, symbol@, decimal)), ..old(s)@ }),
{
    s.metadata = Some((name, symbol, decimal));
}

/// The name; metadata must have been written.
pub fn read_name(s: &TokenStorage) -> (r: Vec<u8>)
    requires
        s@.metadata is Some,
    ensures
        r@ == s@.metadata.unwrap().0,
{
    match &s.metadata {
        Some(m) => copy_bytes(&m.0),
        None => Vec::new(),
    }
}

/// The symbol; metadata must have been written.
pub fn read_symbol(s: &TokenStorage) -> (r: Vec<u8>)
    requires
        s@.metadata is Some,
    ensures
        r@ == s@.metadata.unwrap().1,
{
    match &s.metadata {
        Some(m) => copy_bytes(&m.1),
        None => Vec::new(),
    }
}

/// The decimal places; metadata must have been written.
pub fn read_decimal(s: &TokenStorage) -> (r: u32)
    requires
        s@.metadata is Some,
    ensures
        r == s@.metadata.unwrap().2,
{
    match &s.metadata {
        Some(m) => m.2,
        None => 0,
    }
}

pub fn write_supply(s: &mut TokenStorage, amount: i128)
    requires
        old(s).wf(),
    ensures
        final(s).wf(),
        final(s)@ == old(s)@.with_supply(amount),
{
    s.supply = amount;
}

/// The total supply, 0 when none is stored.
pub fn read_supply(s: &TokenStorage) -> (r: i128)
    ensures
        r == s@.supply,
{
    s.supply
}

pub fn write_max_supply(s: &mut TokenStorage, amount: i128)
    requires
        old(s).wf(),
    ensures
        final(s).wf(),
        final(s)@ == (TokenState { max_supply: Some(amount), ..old(s)@ }),
{
    s.max_supply = Some(amount);
}

/// The supply cap, `None` when no cap was set.
pub fn read_max_supply(s: &TokenStorage) -> (r: Option<i128>)
    ensures
        r == s@.max_supply,
{
    s.max_supply
}

/// Stores the allowance of `spender` on `owner`'s tokens.
pub fn write_allowance(s: &mut TokenStorage, owner: Address, spender: Address, allowance: Allowance)
    requires
        old(s).wf(),
    ensures
        final(s).wf(),
        final(s)@ == old(s)@.with_allowance(owner, spender, allowance),
{
    s.allowances.insert(AllowanceKey { owner, spender }, allowance);
}

/// The allowance of `spender` on `owner`'s tokens, if one is stored.
pub fn read_allowance(s: &TokenStorage, owner: Address, spender: Address) -> (r: Option<Allowance>)
    requires
        s.wf(),
    ensures
        r is Some <==> s@.allowances.contains_key((AllowanceKey { owner, spender })),
        r matches Some(a) ==> a == s@.allowances[(AllowanceKey { owner, spender })],
{
    match s.allowances.get(&AllowanceKey { owner, spender }) {
        Some(a) => Some(*a),
        None => None,
    }
}

/// Deletes the allowance of `spender` on `owner`'s tokens.
pub fn remove_allowance(s: &mut TokenStorage, owner: Address, spender: Address)
    requires
        old(s).wf(),
    ensures
        final(s).wf(),
        final(s)@ == old(s)@.without_allowance(owner, spender),
{
    let _ = s.allowances.remove(&AllowanceKey { owner, spender });
}

/// Lowers the allowance `allowance` of `spender` on `owner`'s tokens by
/// `amount`, keeping its expiration; the allowance may not go below zero, so
/// `amount` may not exceed it.
pub fn spend_allowance(
    s: &mut TokenStorage,
    owner: Address,
    spender: Address,
    allowance: &Allowance,
    amount: i128,
)
    requires
        old(s).wf(),
        amount <= allowance.amount,
        allowance.amount - amount <= i128::MAX,
    ensures
        final(s).wf(),
        final(s)@ == old(s)@.with_allowance(
            owner,
            spender,
            Allowance {
                amount: (allowance.amount - amount) as i128,
                expiration_ledger: allowance.expiration_ledger,
            },
        ),
{
    let updated = Allowance {
        amount: allowance.amount - amount,
        expiration_ledger: allowance.expiration_ledger,
    };
    s.allowances.insert(AllowanceKey { owner, spender }, updated);
}

} // verus!
