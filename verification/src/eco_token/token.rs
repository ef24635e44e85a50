//! The token's entry points.
use vstd::prelude::*;
use crate::env::{Address, Env};
use crate::eco_token::storage::{self, Allowance, AllowanceKey, TokenState, TokenStorage};

verus! {

/// Why a token call fails. A failed call changes nothing.
#[derive(Clone, Copy, PartialEq, Eq, Structural, Debug)]
pub enum TokenError {
    /// An address that had to authorize the call did not.
    NotAuthorized,
    AlreadyInitialized,
    Unauthorized,
    AmountMustBePositive,
    AmountMustBeNonNegative,
    ExpirationMustBeInFuture,
    InsufficientBalance,
    InsufficientAllowance,
    AllowanceExpired,
    AllowanceNotFound,
    CannotTransferToSelf,
    SupplyCapExceeded,
    MaxSupplyMustBePositive,
    MaxSupplyBelowCurrentSupply,
    NewAdminMustBeDifferent,
    NoPendingAdmin,
    UnauthorizedPendingAdmin,
    MinterMustDifferFromAdmin,
    BalanceOverflow,
    SupplyOverflow,
    SupplyUnderflow,
}

impl TokenError {
    pub open spec fn spec_message(self) -> Seq<char> {
        match self {
            TokenError::NotAuthorized => "Error(Auth, InvalidAction)"@,
            TokenError::AlreadyInitialized => "token: already initialized"@,
            TokenError::Unauthorized => "token: unauthorized"@,
            TokenError::AmountMustBePositive => "token: amount must be positive"@,
            TokenError::AmountMustBeNonNegative => "token: amount must be non-negative"@,
            TokenError::ExpirationMustBeInFuture => "token: expiration must be in the future"@,
            TokenError::InsufficientBalance => "token: insufficient balance"@,
            TokenError::InsufficientAllowance => "token: insufficient allowance"@,
            TokenError::AllowanceExpired => "token: allowance expired"@,
            TokenError::AllowanceNotFound => "token: allowance not found"@,
            TokenError::CannotTransferToSelf => "token: cannot transfer to self"@,
            TokenError::SupplyCapExceeded => "token: supply cap exceeded"@,
            TokenError::MaxSupplyMustBePositive => "token: max supply must be positive"@,
            TokenError::MaxSupplyBelowCurrentSupply => "token: max supply below current supply"@,
            TokenError::NewAdminMustBeDifferent => "token: new admin must be different"@,
            TokenError::NoPendingAdmin => "token: no pending admin"@,
            TokenError::UnauthorizedPendingAdmin => "token: unauthorized pending admin"@,
            TokenError::MinterMustDifferFromAdmin => "token: minter must differ from admin"@,
            TokenError::BalanceOverflow => "balance overflow"@,
            TokenError::SupplyOverflow => "supply overflow"@,
            TokenError::SupplyUnderflow => "supply underflow"@,
        }
    }

    /// The message the failure is reported with.
    pub fn message(&self) -> (r: &'static str)
        ensures
            r@ == self.spec_message(),
    {
        match self {
            TokenError::NotAuthorized => "Error(Auth, InvalidAction)",
            TokenError::AlreadyInitialized => "token: already initialized",
            TokenError::Unauthorized => "token: unauthorized",
            TokenError::AmountMustBePositive => "token: amount must be positive",
            TokenError::AmountMustBeNonNegative => "token: amount must be non-negative",
            TokenError::ExpirationMustBeInFuture => "token: expiration must be in the future",
            TokenError::InsufficientBalance => "token: insufficient balance",
            TokenError::InsufficientAllowance => "token: insufficient allowance",
            TokenError::AllowanceExpired => "token: allowance expired",
            TokenError::AllowanceNotFound => "token: allowance not found",
            TokenError::CannotTransferToSelf => "token: cannot transfer to self",
            TokenError::SupplyCapExceeded => "token: supply cap exceeded",
            TokenError::MaxSupplyMustBePositive => "token: max supply must be positive",
            TokenError::MaxSupplyBelowCurrentSupply => "token: max supply below current supply",
            TokenError::NewAdminMustBeDifferent => "token: new admin must be different",
            TokenError::NoPendingAdmin => "token: no pending admin",
            TokenError::UnauthorizedPendingAdmin => "token: unauthorized pending admin",
            TokenError::MinterMustDifferFromAdmin => "token: minter must differ from admin",
            TokenError::BalanceOverflow => "balance overflow",
            TokenError::SupplyOverflow => "supply overflow",
            TokenError::SupplyUnderflow => "supply underflow",
        }
    }
}

#[derive(Clone, Copy, PartialEq, Eq, Debug)]
pub struct MintEvent {
    pub admin: Address,
    pub to: Address,
    pub amount: i128,
}

#[derive(Clone, Copy, PartialEq, Eq, Debug)]
pub struct TransferEvent {
    pub from: Address,
    pub to: Address,
    pub amount: i128,
}

#[derive(Clone, Copy, PartialEq, Eq, Debug)]
pub struct BurnEvent {
    pub from: Address,
    pub amount: i128,
}

#[derive(Clone, Copy, PartialEq, Eq, Debug)]
pub struct TransferFromEvent {
    pub from: Address,
    pub to: Address,
    pub spender: Address,
    pub amount: i128,
}

#[derive(Clone, Copy, PartialEq, Eq, Debug)]
pub struct ApproveEvent {
    pub owner: Address,
    pub spender: Address,
    pub amount: i128,
    pub expiration_ledger: u32,
}

#[derive(Clone, Copy, PartialEq, Eq, Debug)]
pub struct MaxSupplyUpdatedEvent {
    pub admin: Address,
    pub max_supply: i128,
}

#[derive(PartialEq, Eq, Debug)]
pub struct MetadataUpdatedEvent {
    pub admin: Address,
    pub name: Vec<u8>,
    pub symbol: Vec<u8>,
    pub decimal: u32,
}

#[derive(Clone, Copy, PartialEq, Eq, Debug)]
pub struct MinterUpdatedEvent {
    pub admin: Address,
    pub previous_minter: Address,
    pub new_minter: Address,
}

#[derive(Clone, Copy, PartialEq, Eq, Debug)]
pub struct AdminProposedEvent {
    pub current_admin: Address,
    pub proposed_admin: Address,
}

#[derive(Clone, Copy, PartialEq, Eq, Debug)]
pub struct AdminAcceptedEvent {
    pub new_admin: Address,
}

// ---------------------------------------------------------------------------
// What each entry point does to the token's state, and what it returns.
// ---------------------------------------------------------------------------

pub open spec fn initialize_step(
    s: TokenState,
    admin: Address,
    name: Seq<u8>,
    symbol: Seq<u8>,
    decimal: u32,
) -> (TokenState, Result<(), TokenError>) {
    if s.admin is Some {
        (s, Err(TokenError::AlreadyInitialized))
    } else {
        (
            TokenState {
                admin: Some(admin),
                minter: Some(admin),
                metadata: Some((name, symbol, decimal)),
                supply: 0,
                ..s
            },
            Ok(()),
        )
    }
}

/// Minting needs the minter's authorization; the cap check comes before the
/// balance update.
pub open spec fn mint_step(s: TokenState, e: Env, to: Address, amount: i128) -> (
    TokenState,
    Result<MintEvent, TokenError>,
) {
    if !e.authorizes(s.minter.unwrap()) {
        (s, Err(TokenError::NotAuthorized))
    } else {
        mint_by_minter(s, to, amount)
    }
}

/// `mint` once the minter has authorized it.
pub open spec fn mint_by_minter(s: TokenState, to: Address, amount: i128) -> (
    TokenState,
    Result<MintEvent, TokenError>,
) {
    let minter = s.minter.unwrap();
    let new_balance = s.balance(to) + amount;
    let new_supply = s.supply + amount;
    if amount <= 0 {
        (s, Err(TokenError::AmountMustBePositive))
    } else if s.max_supply is Some && new_supply > i128::MAX {
        (s, Err(TokenError::SupplyOverflow))
    } else if s.max_supply is Some && new_supply > s.max_supply.unwrap() {
        (s, Err(TokenError::SupplyCapExceeded))
    } else if new_balance > i128::MAX {
        (s, Err(TokenError::BalanceOverflow))
    } else if new_supply > i128::MAX {
        (s, Err(TokenError::SupplyOverflow))
    } else {
        (
            s.with_balance(to, new_balance as i128).with_supply(new_supply as i128),
            Ok(MintEvent { admin: minter, to, amount }),
        )
    }
}

/// `from` is debited before `to` is read, so a transfer to oneself leaves the
/// balance as it was.
pub open spec fn transfer_step(s: TokenState, e: Env, from: Address, to: Address, amount: i128) -> (
    TokenState,
    Result<TransferEvent, TokenError>,
) {
    let debited = s.with_balance(from, (s.balance(from) - amount) as i128);
    let credited = debited.balance(to) + amount;
    if !e.authorizes(from) {
        (s, Err(TokenError::NotAuthorized))
    } else if amount <= 0 {
        (s, Err(TokenError::AmountMustBePositive))
    } else if s.balance(from) < amount {
        (s, Err(TokenError::InsufficientBalance))
    } else if credited > i128::MAX {
        (s, Err(TokenError::BalanceOverflow))
    } else {
        (debited.with_balance(to, credited as i128), Ok(TransferEvent { from, to, amount }))
    }
}

/// Shared admin check of the admin-only setters.
pub open spec fn admin_check(s: TokenState, e: Env, caller: Address) -> Option<TokenError> {
    if !e.authorizes(caller) {
        Some(TokenError::NotAuthorized)
    } else if caller != s.admin.unwrap() {
        Some(TokenError::Unauthorized)
    } else {
        None
    }
}

pub open spec fn set_max_supply_step(s: TokenState, e: Env, caller: Address, max_supply: i128) -> (
    TokenState,
    Result<MaxSupplyUpdatedEvent, TokenError>,
) {
    if admin_check(s, e, caller) is Some {
        (s, Err(admin_check(s, e, caller).unwrap()))
    } else if max_supply <= 0 {
        (s, Err(TokenError::MaxSupplyMustBePositive))
    } else if max_supply < s.supply {
        (s, Err(TokenError::MaxSupplyBelowCurrentSupply))
    } else {
        (
            TokenState { max_supply: Some(max_supply), ..s },
            Ok(MaxSupplyUpdatedEvent { admin: s.admin.unwrap(), max_supply }),
        )
    }
}

pub open spec fn set_metadata_step(
    s: TokenState,
    e: Env,
    caller: Address,
    name: Seq<u8>,
    symbol: Seq<u8>,
    decimal: u32,
) -> (TokenState, Result<(), TokenError>) {
    if admin_check(s, e, caller) is Some {
        (s, Err(admin_check(s, e, caller).unwrap()))
    } else {
        (TokenState { metadata: Some((name, symbol, decimal)), ..s }, Ok(()))
    }
}

/// Proposing a successor records it as pending; the admin stays in office.
pub open spec fn propose_admin_step(
    s: TokenState,
    e: Env,
    current_admin: Address,
    new_admin: Address,
) -> (TokenState, Result<AdminProposedEvent, TokenError>) {
    if !e.authorizes(current_admin) {
        (s, Err(TokenError::NotAuthorized))
    } else if current_admin != s.admin.unwrap() {
        (s, Err(TokenError::Unauthorized))
    } else if new_admin == current_admin {
        (s, Err(TokenError::NewAdminMustBeDifferent))
    } else {
        (
            TokenState { pending_admin: Some(new_admin), ..s },
            Ok(AdminProposedEvent { current_admin, proposed_admin: new_admin }),
        )
    }
}

pub open spec fn accept_admin_step(s: TokenState, e: Env, pending_admin: Address) -> (
    TokenState,
    Result<AdminAcceptedEvent, TokenError>,
) {
    if !e.authorizes(pending_admin) {
        (s, Err(TokenError::NotAuthorized))
    } else if s.pending_admin is None {
        (s, Err(TokenError::NoPendingAdmin))
    } else if pending_admin != s.pending_admin.unwrap() {
        (s, Err(TokenError::UnauthorizedPendingAdmin))
    } else {
        (
            TokenState { admin: Some(pending_admin), pending_admin: None, ..s },
            Ok(AdminAcceptedEvent { new_admin: pending_admin }),
        )
    }
}

pub open spec fn set_minter_step(s: TokenState, e: Env, caller: Address, new_minter: Address) -> (
    TokenState,
    Result<MinterUpdatedEvent, TokenError>,
) {
    if admin_check(s, e, caller) is Some {
        (s, Err(admin_check(s, e, caller).unwrap()))
    } else if new_minter == caller {
        (s, Err(TokenError::MinterMustDifferFromAdmin))
    } else {
        (
            TokenState { minter: Some(new_minter), ..s },
            Ok(
                MinterUpdatedEvent {
                    admin: s.admin.unwrap(),
                    previous_minter: s.minter.unwrap(),
                    new_minter,
                },
            ),
        )
    }
}

pub open spec fn burn_step(s: TokenState, e: Env, from: Address, amount: i128) -> (
    TokenState,
    Result<BurnEvent, TokenError>,
) {
    if !e.authorizes(from) {
        (s, Err(TokenError::NotAuthorized))
    } else if amount <= 0 {
        (s, Err(TokenError::AmountMustBePositive))
    } else if s.balance(from) < amount {
        (s, Err(TokenError::InsufficientBalance))
    } else if s.supply - amount < i128::MIN {
        (s, Err(TokenError::SupplyUnderflow))
    } else {
        (
            s.with_balance(from, (s.balance(from) - amount) as i128).with_supply(
                (s.supply - amount) as i128,
            ),
            Ok(BurnEvent { from, amount }),
        )
    }
}

/// An approval replaces any earlier allowance of the same pair.
pub open spec fn approve_step(
    s: TokenState,
    e: Env,
    owner: Address,
    spender: Address,
    amount: i128,
    expiration_ledger: u32,
) -> (TokenState, Result<ApproveEvent, TokenError>) {
    if !e.authorizes(owner) {
        (s, Err(TokenError::NotAuthorized))
    } else if amount < 0 {
        (s, Err(TokenError::AmountMustBeNonNegative))
    } else if expiration_ledger <= e.sequence {
        (s, Err(TokenError::ExpirationMustBeInFuture))
    } else {
        (
            s.with_allowance(owner, spender, Allowance { amount, expiration_ledger }),
            Ok(ApproveEvent { owner, spender, amount, expiration_ledger }),
        )
    }
}

/// Reading an allowance past its expiration ledger deletes it and reads 0.
pub open spec fn allowance_step(s: TokenState, e: Env, owner: Address, spender: Address) -> (
    TokenState,
    i128,
) {
    let key = AllowanceKey { owner, spender };
    if !s.allowances.contains_key(key) {
        (s, 0)
    } else if s.allowances[key].expiration_ledger < e.sequence {
        (s.without_allowance(owner, spender), 0)
    } else {
        (s, s.allowances[key].amount)
    }
}

/// `None` when no allowance is stored; an expired one reads as amount 0.
pub open spec fn allowance_with_expiry_of(
    s: TokenState,
    e: Env,
    owner: Address,
    spender: Address,
) -> Option<(i128, u32)> {
    let key = AllowanceKey { owner, spender };
    if !s.allowances.contains_key(key) {
        None
    } else if s.allowances[key].expiration_ledger < e.sequence {
        Some((0, s.allowances[key].expiration_ledger))
    } else {
        Some((s.allowances[key].amount, s.allowances[key].expiration_ledger))
    }
}

pub open spec fn transfer_from_step(
    s: TokenState,
    e: Env,
    spender: Address,
    from: Address,
    to: Address,
    amount: i128,
) -> (TokenState, Result<TransferFromEvent, TokenError>) {
    let key = AllowanceKey { owner: from, spender };
    let a = s.allowances[key];
    let spent = s.with_allowance(
        from,
        spender,
        Allowance { amount: (a.amount - amount) as i128, expiration_ledger: a.expiration_ledger },
    );
    let debited = spent.with_balance(from, (s.balance(from) - amount) as i128);
    let credited = s.balance(to) + amount;
    if !e.authorizes(spender) {
        (s, Err(TokenError::NotAuthorized))
    } else if amount <= 0 {
        (s, Err(TokenError::AmountMustBePositive))
    } else if from == to {
        (s, Err(TokenError::CannotTransferToSelf))
    } else if !s.allowances.contains_key(key) {
        (s, Err(TokenError::AllowanceNotFound))
    } else if a.expiration_ledger < e.sequence {
        (s, Err(TokenError::AllowanceExpired))
    } else if a.amount < amount {
        (s, Err(TokenError::InsufficientAllowance))
    } else if s.balance(from) < amount {
        (s, Err(TokenError::InsufficientBalance))
    } else if credited > i128::MAX {
        (s, Err(TokenError::BalanceOverflow))
    } else {
        (
            debited.with_balance(to, credited as i128),
            Ok(TransferFromEvent { from, to, spender, amount }),
        )
    }
}

/// The ECO token: its ledger storage and entry points.
pub struct TokenContract {
    /// The token's own address on the ledger.
    pub address: Address,
    pub storage: TokenStorage,
}

impl View for TokenContract {
    type V = TokenState;

    open spec fn view(&self) -> TokenState {
        self.storage@
    }
}

impl TokenContract {
    pub open spec fn wf(&self) -> bool {
        self.storage.wf()
    }

    /// A freshly deployed, uninitialized token at `address`.
    pub fn new(address: Address) -> (r: TokenContract)
        ensures
            r.wf(),
            r.address == address,
            r@.admin is None,
            r@.pending_admin is None,
            r@.minter is None,
            r@.metadata is None,
            r@.supply == 0,
            r@.max_supply is None,
            r@.balances == Map::<Address, i128>::empty(),
            r@.allowances == Map::<AllowanceKey, Allowance>::empty(),
    {
        TokenContract { address, storage: TokenStorage::new() }
    }

    /// Sets admin, metadata and zero supply; the admin is also the first
    /// minter. Fails if the token already has an admin.
    pub fn initialize(
        &mut self,
        e: &Env,
        admin: Address,
        name: Vec<u8>,
        symbol: Vec<u8>,
        decimal: u32,
    ) -> (r: Result<(), TokenError>)
        requires
            old(self).wf(),
        ensures
            final(self).address == old(self).address,
            final(self).wf(),
            final(self)@ == initialize_step(old(self)@, admin, name@, symbol@, decimal).0,
            r == initialize_step(old(self)@, admin, name@, symbol@, decimal).1,
    {
        if storage::has_admin(&self.storage) {
            return Err(TokenError::AlreadyInitialized);
        }
        storage::write_admin(&mut self.storage, admin);
        storage::write_minter(&mut self.storage, admin);
        storage::write_metadata(&mut self.storage, name, symbol, decimal);
        storage::write_supply(&mut self.storage, 0);
        Ok(())
    }

    /// What `mint` would answer, without changing anything: the checks it
    /// makes, in the same order.
    pub fn mint_result(&self, e: &Env, to: Address, amount: i128) -> (r: Result<MintEvent, TokenError>)
        requires
            self.wf(),
            self@.minter is Some,
        ensures
            r == mint_step(self@, *e, to, amount).1,
    {
        let minter = storage::read_minter(&self.storage);
        if !e.require_auth(minter) {
            return Err(TokenError::NotAuthorized);
        }
        if amount <= 0 {
            return Err(TokenError::AmountMustBePositive);
        }
        let supply = storage::read_supply(&self.storage);
        if let Some(cap) = storage::read_max_supply(&self.storage) {
            if supply > i128::MAX - amount {
                return Err(TokenError::SupplyOverflow);
            }
            if supply + amount > cap {
                return Err(TokenError::SupplyCapExceeded);
            }
        }
        let balance = storage::read_balance(&self.storage, to);
        if balance > i128::MAX - amount {
            return Err(TokenError::BalanceOverflow);
        }
        if supply > i128::MAX - amount {
            return Err(TokenError::SupplyOverflow);
        }
        Ok(MintEvent { admin: minter, to, amount })
    }

    /// Mints `amount` to `to`; the minter must authorize.
    pub fn mint(&mut self, e: &Env, to: Address, amount: i128) -> (r: Result<MintEvent, TokenError>)
        requires
            old(self).wf(),
            old(self)@.minter is Some,
        ensures
            final(self).wf(),
            final(self).address == old(self).address,
            final(self)@ == mint_step(old(self)@, *e, to, amount).0,
            r == mint_step(old(self)@, *e, to, amount).1,
    {
        let checked = self.mint_result(e, to, amount);
        if checked.is_err() {
            return checked;
        }
        let supply = storage::read_supply(&self.storage);
        let balance = storage::read_balance(&self.storage, to);
        storage::write_balance(&mut self.storage, to, balance + amount);
        storage::write_supply(&mut self.storage, supply + amount);
        checked
    }

    /// Moves `amount` from `from` to `to`; `from` must authorize.
    pub fn transfer(&mut self, e: &Env, from: Address, to: Address, amount: i128) -> (r: Result<
        TransferEvent,
        TokenError,
    >)
        requires
            old(self).wf(),
        ensures
            final(self).address == old(self).address,
            final(self).wf(),
            final(self)@ == transfer_step(old(self)@, *e, from, to, amount).0,
            r == transfer_step(old(self)@, *e, from, to, amount).1,
    {
        if !e.require_auth(from) {
            return Err(TokenError::NotAuthorized);
        }
        if amount <= 0 {
            return Err(TokenError::AmountMustBePositive);
        }
        let from_balance = storage::read_balance(&self.storage, from);
        if from_balance < amount {
            return Err(TokenError::InsufficientBalance);
        }
        let debited = from_balance - amount;
        let to_balance = if from == to {
            debited
        } else {
            storage::read_balance(&self.storage, to)
        };
        if to_balance > i128::MAX - amount {
            return Err(TokenError::BalanceOverflow);
        }
        storage::write_balance(&mut self.storage, from, debited);
        storage::write_balance(&mut self.storage, to, to_balance + amount);
        Ok(TransferEvent { from, to, amount })
    }

    /// The balance of `id`.
    pub fn balance(&self, e: &Env, id: Address) -> (r: i128)
        requires
            self.wf(),
        ensures
            r == self@.balance(id),
    {
        storage::read_balance(&self.storage, id)
    }

    pub fn total_supply(&self, e: &Env) -> (r: i128)
        ensures
            r == self@.supply,
    {
        storage::read_supply(&self.storage)
    }

    /// The supply cap, `i128::MAX` when none is set.
    pub fn max_supply(&self, e: &Env) -> (r: i128)
        ensures
            r == match self@.max_supply {
                Some(cap) => cap,
                None => i128::MAX,
            },
    {
        match storage::read_max_supply(&self.storage) {
            Some(cap) => cap,
            None => i128::MAX,
        }
    }

    /// Sets the supply cap; admin only, positive, not below the supply.
    pub fn set_max_supply(&mut self, e: &Env, caller: Address, max_supply: i128) -> (r: Result<
        MaxSupplyUpdatedEvent,
        TokenError,
    >)
        requires
            old(self).wf(),
            old(self)@.admin is Some,
        ensures
            final(self).address == old(self).address,
            final(self).wf(),
            final(self)@ == set_max_supply_step(old(self)@, *e, caller, max_supply).0,
            r == set_max_supply_step(old(self)@, *e, caller, max_supply).1,
    {
        if !e.require_auth(caller) {
            return Err(TokenError::NotAuthorized);
        }
        let admin = storage::read_admin(&self.storage);
        if caller != admin {
            return Err(TokenError::Unauthorized);
        }
        if max_supply <= 0 {
            return Err(TokenError::MaxSupplyMustBePositive);
        }
        if max_supply < storage::read_supply(&self.storage) {
            return Err(TokenError::MaxSupplyBelowCurrentSupply);
        }
        storage::write_max_supply(&mut self.storage, max_supply);
        Ok(MaxSupplyUpdatedEvent { admin, max_supply })
    }

    pub fn name(&self, e: &Env) -> (r: Vec<u8>)
        requires
            self@.metadata is Some,
        ensures
            r@ == self@.metadata.unwrap().0,
    {
        storage::read_name(&self.storage)
    }

    pub fn symbol(&self, e: &Env) -> (r: Vec<u8>)
        requires
            self@.metadata is Some,
        ensures
            r@ == self@.metadata.unwrap().1,
    {
        storage::read_symbol(&self.storage)
    }

    pub fn decimal(&self, e: &Env) -> (r: u32)
        requires
            self@.metadata is Some,
        ensures
            r == self@.metadata.unwrap().2,
    {
        storage::read_decimal(&self.storage)
    }

    /// The decimal places, under the name the token interface uses.
    pub fn decimals(&self, e: &Env) -> (r: u32)
        requires
            self@.metadata is Some,
        ensures
            r == self@.metadata.unwrap().2,
    {
        storage::read_decimal(&self.storage)
    }

    /// Replaces name, symbol and decimal places; admin only.
    pub fn set_metadata(
        &mut self,
        e: &Env,
        caller: Address,
        name: Vec<u8>,
        symbol: Vec<u8>,
        decimal: u32,
    ) -> (r: Result<MetadataUpdatedEvent, TokenError>)
        requires
            old(self).wf(),
            old(self)@.admin is Some,
        ensures
            final(self).address == old(self).address,
            final(self).wf(),
            final(self)@ == set_metadata_step(old(self)@, *e, caller, name@, symbol@, decimal).0,
            r is Ok <==> set_metadata_step(old(self)@, *e, caller, name@, symbol@, decimal).1 is Ok,
            r matches Err(err) ==> set_metadata_step(
                old(self)@,
                *e,
                caller,
                name@,
                symbol@,
                decimal,
            ).1 == Err::<(), TokenError>(err),
            r matches Ok(ev) ==> ev.admin == old(self)@.admin.unwrap() && ev.name@ == name@
                && ev.symbol@ == symbol@ && ev.decimal == decimal,
    {
        if !e.require_auth(caller) {
            return Err(TokenError::NotAuthorized);
        }
        let admin = storage::read_admin(&self.storage);
        if caller != admin {
            return Err(TokenError::Unauthorized);
        }
        let event = MetadataUpdatedEvent {
            admin,
            name: crate::ecotask_types::copy_bytes(&name),
            symbol: crate::ecotask_types::copy_bytes(&symbol),
            decimal,
        };
        storage::write_metadata(&mut self.storage, name, symbol, decimal);
        Ok(event)
    }

    pub fn admin(&self, e: &Env) -> (r: Address)
        requires
            self@.admin is Some,
        ensures
            r == self@.admin.unwrap(),
    {
        storage::read_admin(&self.storage)
    }

    /// Proposes `new_admin` as successor of `current_admin`, who must be the
    /// admin and authorize; the successor takes office on `accept_admin`.
    pub fn propose_admin(&mut self, e: &Env, current_admin: Address, new_admin: Address) -> (r:
        Result<AdminProposedEvent, TokenError>)
        requires
            old(self).wf(),
            old(self)@.admin is Some,
        ensures
            final(self).address == old(self).address,
            final(self).wf(),
            final(self)@ == propose_admin_step(old(self)@, *e, current_admin, new_admin).0,
            r == propose_admin_step(old(self)@, *e, current_admin, new_admin).1,
    {
        if !e.require_auth(current_admin) {
            return Err(TokenError::NotAuthorized);
        }
        let stored_admin = storage::read_admin(&self.storage);
        if current_admin != stored_admin {
            return Err(TokenError::Unauthorized);
        }
        if new_admin == current_admin {
            return Err(TokenError::NewAdminMustBeDifferent);
        }
        storage::write_pending_admin(&mut self.storage, new_admin);
        Ok(AdminProposedEvent { current_admin, proposed_admin: new_admin })
    }

    /// The proposed successor takes office; it must authorize.
    pub fn accept_admin(&mut self, e: &Env, pending_admin: Address) -> (r: Result<
        AdminAcceptedEvent,
        TokenError,
    >)
        requires
            old(self).wf(),
        ensures
            final(self).address == old(self).address,
            final(self).wf(),
            final(self)@ == accept_admin_step(old(self)@, *e, pending_admin).0,
            r == accept_admin_step(old(self)@, *e, pending_admin).1,
    {
        if !e.require_auth(pending_admin) {
            return Err(TokenError::NotAuthorized);
        }
        let proposed = match storage::read_pending_admin(&self.storage) {
            Some(p) => p,
            None => {
                return Err(TokenError::NoPendingAdmin);
            },
        };
        if pending_admin != proposed {
            return Err(TokenError::UnauthorizedPendingAdmin);
        }
        storage::write_admin(&mut self.storage, pending_admin);
        storage::remove_pending_admin(&mut self.storage);
        Ok(AdminAcceptedEvent { new_admin: pending_admin })
    }

    /// The older name of `propose_admin`: it proposes, it does not hand over.
    pub fn transfer_admin(&mut self, e: &Env, current_admin: Address, new_admin: Address) -> (r:
        Result<AdminProposedEvent, TokenError>)
        requires
            old(self).wf(),
            old(self)@.admin is Some,
        ensures
            final(self).address == old(self).address,
            final(self).wf(),
            final(self)@ == propose_admin_step(old(self)@, *e, current_admin, new_admin).0,
            r == propose_admin_step(old(self)@, *e, current_admin, new_admin).1,
    {
        self.propose_admin(e, current_admin, new_admin)
    }

    pub fn minter(&self, e: &Env) -> (r: Address)
        requires
            self@.minter is Some,
        ensures
            r == self@.minter.unwrap(),
    {
        storage::read_minter(&self.storage)
    }

    /// Hands the minting right to `new_minter`; admin only, and the minter
    /// must not be the admin.
    pub fn set_minter(&mut self, e: &Env, caller: Address, new_minter: Address) -> (r: Result<
        MinterUpdatedEvent,
        TokenError,
    >)
        requires
            old(self).wf(),
            old(self)@.admin is Some,
            old(self)@.minter is Some,
        ensures
            final(self).address == old(self).address,
            final(self).wf(),
            final(self)@ == set_minter_step(old(self)@, *e, caller, new_minter).0,
            r == set_minter_step(old(self)@, *e, caller, new_minter).1,
    {
        if !e.require_auth(caller) {
            return Err(TokenError::NotAuthorized);
        }
        let admin = storage::read_admin(&self.storage);
        if caller != admin {
            return Err(TokenError::Unauthorized);
        }
        if new_minter == caller {
            return Err(TokenError::MinterMustDifferFromAdmin);
        }
        let previous_minter = storage::read_minter(&self.storage);
        storage::write_minter(&mut self.storage, new_minter);
        Ok(MinterUpdatedEvent { admin, previous_minter, new_minter })
    }

    /// Destroys `amount` of `from`'s tokens; `from` must authorize.
    pub fn burn(&mut self, e: &Env, from: Address, amount: i128) -> (r: Result<BurnEvent, TokenError>)
        requires
            old(self).wf(),
        ensures
            final(self).address == old(self).address,
            final(self).wf(),
            final(self)@ == burn_step(old(self)@, *e, from, amount).0,
            r == burn_step(old(self)@, *e, from, amount).1,
    {
        if !e.require_auth(from) {
            return Err(TokenError::NotAuthorized);
        }
        if amount <= 0 {
            return Err(TokenError::AmountMustBePositive);
        }
        let balance = storage::read_balance(&self.storage, from);
        if balance < amount {
            return Err(TokenError::InsufficientBalance);
        }
        let supply = storage::read_supply(&self.storage);
        if supply < i128::MIN + amount {
            return Err(TokenError::SupplyUnderflow);
        }
        storage::write_balance(&mut self.storage, from, balance - amount);
        storage::write_supply(&mut self.storage, supply - amount);
        Ok(BurnEvent { from, amount })
    }

    /// Lets `spender` move up to `amount` of `owner`'s tokens until ledger
    /// `expiration_ledger`; `owner` must authorize.
    pub fn approve(
        &mut self,
        e: &Env,
        owner: Address,
        spender: Address,
        amount: i128,
        expiration_ledger: u32,
    ) -> (r: Result<ApproveEvent, TokenError>)
        requires
            old(self).wf(),
        ensures
            final(self).address == old(self).address,
            final(self).wf(),
            final(self)@ == approve_step(old(self)@, *e, owner, spender, amount, expiration_ledger).0,
            r == approve_step(old(self)@, *e, owner, spender, amount, expiration_ledger).1,
    {
        if !e.require_auth(owner) {
            return Err(TokenError::NotAuthorized);
        }
        if amount < 0 {
            return Err(TokenError::AmountMustBeNonNegative);
        }
        if expiration_ledger <= e.sequence {
            return Err(TokenError::ExpirationMustBeInFuture);
        }
        storage::write_allowance(
            &mut self.storage,
            owner,
            spender,
            Allowance { amount, expiration_ledger },
        );
        Ok(ApproveEvent { owner, spender, amount, expiration_ledger })
    }

    /// The live allowance of `spender` on `owner`'s tokens, 0 when there is
    /// none; an expired allowance is deleted on the way.
    pub fn allowance(&mut self, e: &Env, owner: Address, spender: Address) -> (r: i128)
        requires
            old(self).wf(),
        ensures
            final(self).address == old(self).address,
            final(self).wf(),
            final(self)@ == allowance_step(old(self)@, *e, owner, spender).0,
            r == allowance_step(old(self)@, *e, owner, spender).1,
    {
        match storage::read_allowance(&self.storage, owner, spender) {
            Some(a) => {
                if a.expiration_ledger < e.sequence {
                    storage::remove_allowance(&mut self.storage, owner, spender);
                    0
                } else {
                    a.amount
                }
            },
            None => 0,
        }
    }

    /// The allowance with its expiration ledger: `None` when none was ever
    /// stored, amount 0 when it has expired.
    pub fn allowance_with_expiry(&self, e: &Env, owner: Address, spender: Address) -> (r: Option<
        (i128, u32),
    >)
        requires
            self.wf(),
        ensures
            r == allowance_with_expiry_of(self@, *e, owner, spender),
    {
        let current_sequence = e.sequence;
        match storage::read_allowance(&self.storage, owner, spender) {
            Some(a) => {
                if a.expiration_ledger < current_sequence {
                    Some((0, a.expiration_ledger))
                } else {
                    Some((a.amount, a.expiration_ledger))
                }
            },
            None => None,
        }
    }

    /// `spender` moves `amount` of `from`'s tokens to `to` out of its
    /// allowance; `spender` must authorize.
    pub fn transfer_from(
        &mut self,
        e: &Env,
        spender: Address,
        from: Address,
        to: Address,
        amount: i128,
    ) -> (r: Result<TransferFromEvent, TokenError>)
        requires
            old(self).wf(),
        ensures
            final(self).address == old(self).address,
            final(self).wf(),
            final(self)@ == transfer_from_step(old(self)@, *e, spender, from, to, amount).0,
            r == transfer_from_step(old(self)@, *e, spender, from, to, amount).1,
    {
        if !e.require_auth(spender) {
            return Err(TokenError::NotAuthorized);
        }
        if amount <= 0 {
            return Err(TokenError::AmountMustBePositive);
        }
        if from == to {
            return Err(TokenError::CannotTransferToSelf);
        }
        let allowance = match storage::read_allowance(&self.storage, from, spender) {
            Some(a) => {
                if a.expiration_ledger < e.sequence {
                    return Err(TokenError::AllowanceExpired);
                }
                a
            },
            None => {
                return Err(TokenError::AllowanceNotFound);
            },
        };
        if allowance.amount < amount {
            return Err(TokenError::InsufficientAllowance);
        }
        let from_balance = storage::read_balance(&self.storage, from);
        if from_balance < amount {
            return Err(TokenError::InsufficientBalance);
        }
        let to_balance = storage::read_balance(&self.storage, to);
        if to_balance > i128::MAX - amount {
            return Err(TokenError::BalanceOverflow);
        }
        storage::spend_allowance(&mut self.storage, from, spender, &allowance, amount);
        storage::write_balance(&mut self.storage, from, from_balance - amount);
        storage::write_balance(&mut self.storage, to, to_balance + amount);
        Ok(TransferFromEvent { from, to, spender, amount })
    }
}

} // verus!
