//! Properties of the token that span calls.
use vstd::prelude::*;
use crate::env::{Address, Env};
use crate::eco_token::storage::{AllowanceKey, TokenState};
use crate::map_sum::{lemma_map_sum_insert, lemma_sum_bounds, map_sum};
use crate::eco_token::token::{
    accept_admin_step, allowance_step, allowance_with_expiry_of, approve_step, burn_step,
    initialize_step, mint_step, propose_admin_step, set_max_supply_step, set_metadata_step,
    set_minter_step, transfer_from_step, transfer_step, ApproveEvent, BurnEvent, MintEvent,
    TokenError, TransferEvent, TransferFromEvent,
};

verus! {

/// The sum of the balances of `holders`.
pub open spec fn holdings(s: TokenState, holders: Seq<Address>) -> int
    decreases holders.len(),
{
    if holders.len() == 0 {
        0
    } else {
        holdings(s, holders.drop_last()) + s.balance(holders.last())
    }
}

/// Setting one balance changes the sum over a list that holds that address
/// once by the difference, and leaves the sum over any other list alone.
pub proof fn lemma_holdings_with_balance(s: TokenState, holders: Seq<Address>, a: Address, v: i128)
    requires
        holders.no_duplicates(),
    ensures
        holdings(s.with_balance(a, v), holders) == if holders.contains(a) {
            holdings(s, holders) - s.balance(a) + v
        } else {
            holdings(s, holders)
        },
    decreases holders.len(),
{
    if holders.len() > 0 {
        let init = holders.drop_last();
        assert(init.no_duplicates());
        lemma_holdings_with_balance(s, init, a, v);
        if holders.last() == a {
            assert(!init.contains(a)) by {
                if init.contains(a) {
                    let j = choose|j: int| 0 <= j < init.len() && init[j] == a;
                    assert(holders[j] == holders[holders.len() - 1]);
                }
            }
        }
        assert(holders.contains(a) == (init.contains(a) || holders.last() == a)) by {
            if holders.contains(a) {
                let j = choose|j: int| 0 <= j < holders.len() && holders[j] == a;
                if j < holders.len() - 1 {
                    assert(init[j] == a);
                }
            }
            if init.contains(a) {
                let j = choose|j: int| 0 <= j < init.len() && init[j] == a;
                assert(holders[j] == a);
            }
        }
    }
}

/// The supply is the sum of all balances plus a fixed offset: a transfer
/// keeps both the supply and the sum over every list of distinct holders
/// that names sender and receiver.
pub proof fn transfer_conserves_supply(
    s: TokenState,
    e: Env,
    from: Address,
    to: Address,
    amount: i128,
    holders: Seq<Address>,
)
    requires
        holders.no_duplicates(),
        holders.contains(from),
        holders.contains(to),
        transfer_step(s, e, from, to, amount).1 is Ok,
    ensures
        transfer_step(s, e, from, to, amount).0.supply == s.supply,
        holdings(transfer_step(s, e, from, to, amount).0, holders) == holdings(s, holders),
{
    let debited = s.with_balance(from, (s.balance(from) - amount) as i128);
    lemma_holdings_with_balance(s, holders, from, (s.balance(from) - amount) as i128);
    lemma_holdings_with_balance(
        debited,
        holders,
        to,
        (debited.balance(to) + amount) as i128,
    );
}

/// `transfer_from` moves tokens without creating or destroying any.
pub proof fn transfer_from_conserves_supply(
    s: TokenState,
    e: Env,
    spender: Address,
    from: Address,
    to: Address,
    amount: i128,
    holders: Seq<Address>,
)
    requires
        holders.no_duplicates(),
        holders.contains(from),
        holders.contains(to),
        transfer_from_step(s, e, spender, from, to, amount).1 is Ok,
    ensures
        transfer_from_step(s, e, spender, from, to, amount).0.supply == s.supply,
        holdings(transfer_from_step(s, e, spender, from, to, amount).0, holders) == holdings(
            s,
            holders,
        ),
{
    let key = AllowanceKey { owner: from, spender };
    let a = s.allowances[key];
    let spent = s.with_allowance(
        from,
        spender,
        crate::eco_token::storage::Allowance {
            amount: (a.amount - amount) as i128,
            expiration_ledger: a.expiration_ledger,
        },
    );
    let debited = spent.with_balance(from, (s.balance(from) - amount) as i128);
    assert(holdings(spent, holders) == holdings(s, holders)) by {
        lemma_holdings_unaffected_by_allowances(s, spent, holders);
    }
    lemma_holdings_with_balance(spent, holders, from, (s.balance(from) - amount) as i128);
    lemma_holdings_with_balance(debited, holders, to, (s.balance(to) + amount) as i128);
}

/// A holder who authorizes may send any positive amount up to their whole
/// balance, so long as the receiver's balance stays within `i128`: the
/// transfer succeeds, the sender loses exactly `amount` and the receiver
/// gains it, and sending the whole balance leaves the sender with nothing.
/// A transfer to oneself leaves the balance as it was.
pub proof fn transfer_succeeds_up_to_whole_balance(
    s: TokenState,
    e: Env,
    from: Address,
    to: Address,
    amount: i128,
)
    requires
        e.authorizes(from),
        0 < amount <= s.balance(from),
        from == to || s.balance(to) + amount <= i128::MAX,
    ensures
        ({
            let (t, r) = transfer_step(s, e, from, to, amount);
            &&& r == Ok::<TransferEvent, TokenError>(TransferEvent { from, to, amount })
            &&& from != to ==> t.balance(from) == s.balance(from) - amount
            &&& from != to ==> t.balance(to) == s.balance(to) + amount
            &&& from != to && amount == s.balance(from) ==> t.balance(from) == 0
            &&& from == to ==> t.balance(from) == s.balance(from)
        }),
{
}

/// A spender who authorizes may move any positive amount up to what a live
/// allowance grants and the owner holds, to another address whose balance
/// stays within `i128`: the transfer succeeds, the owner loses exactly
/// `amount`, the receiver gains it, and the allowance keeps its expiry and
/// shrinks by `amount`. Spending the whole allowance leaves it at 0.
pub proof fn transfer_from_succeeds_up_to_whole_allowance(
    s: TokenState,
    e: Env,
    spender: Address,
    from: Address,
    to: Address,
    amount: i128,
)
    requires
        e.authorizes(spender),
        0 < amount,
        from != to,
        s.allowances.contains_key(AllowanceKey { owner: from, spender }),
        e.sequence <= s.allowances[AllowanceKey { owner: from, spender }].expiration_ledger,
        amount <= s.allowances[AllowanceKey { owner: from, spender }].amount,
        amount <= s.balance(from),
        s.balance(to) + amount <= i128::MAX,
    ensures
        ({
            let key = AllowanceKey { owner: from, spender };
            let (t, r) = transfer_from_step(s, e, spender, from, to, amount);
            &&& r == Ok::<TransferFromEvent, TokenError>(
                TransferFromEvent { from, to, spender, amount },
            )
            &&& t.balance(from) == s.balance(from) - amount
            &&& t.balance(to) == s.balance(to) + amount
            &&& t.allowances.contains_key(key)
            &&& t.allowances[key].amount == s.allowances[key].amount - amount
            &&& t.allowances[key].expiration_ledger == s.allowances[key].expiration_ledger
            &&& amount == s.allowances[key].amount ==> t.allowances[key].amount == 0
        }),
{
}

/// The minter may mint any positive amount that keeps the supply within the
/// cap, reaching the cap exactly included, so long as the receiver's balance
/// and the supply stay within `i128`: the mint succeeds and raises both the
/// receiver's balance and the supply by exactly `amount`.
pub proof fn mint_succeeds_up_to_cap(s: TokenState, e: Env, to: Address, amount: i128)
    requires
        s.minter is Some,
        e.authorizes(s.minter.unwrap()),
        0 < amount,
        s.max_supply is Some ==> s.supply + amount <= s.max_supply.unwrap(),
        s.balance(to) + amount <= i128::MAX,
        s.supply + amount <= i128::MAX,
    ensures
        ({
            let (t, r) = mint_step(s, e, to, amount);
            &&& r == Ok::<MintEvent, TokenError>(
                MintEvent { admin: s.minter.unwrap(), to, amount },
            )
            &&& t.balance(to) == s.balance(to) + amount
            &&& t.supply == s.supply + amount
        }),
{
}

/// A holder who authorizes may burn any positive amount up to their whole
/// balance, so long as the supply stays within `i128`: the burn succeeds and
/// lowers both the balance and the supply by exactly `amount`; burning the
/// whole balance leaves nothing.
pub proof fn burn_succeeds_up_to_whole_balance(s: TokenState, e: Env, from: Address, amount: i128)
    requires
        e.authorizes(from),
        0 < amount <= s.balance(from),
        s.supply - amount >= i128::MIN,
    ensures
        ({
            let (t, r) = burn_step(s, e, from, amount);
            &&& r == Ok::<BurnEvent, TokenError>(BurnEvent { from, amount })
            &&& t.balance(from) == s.balance(from) - amount
            &&& t.supply == s.supply - amount
            &&& amount == s.balance(from) ==> t.balance(from) == 0
        }),
{
}

/// An owner who authorizes may approve any amount from 0 up, until any
/// ledger after the current one: the approval succeeds, and the allowance
/// reads back as that amount up to and including its expiration ledger and
/// as 0 after it.
pub proof fn approval_lasts_through_its_expiration_ledger(
    s: TokenState,
    e: Env,
    e2: Env,
    owner: Address,
    spender: Address,
    amount: i128,
    expiration_ledger: u32,
)
    requires
        e.authorizes(owner),
        0 <= amount,
        e.sequence < expiration_ledger,
    ensures
        ({
            let (t, r) = approve_step(s, e, owner, spender, amount, expiration_ledger);
            &&& r == Ok::<ApproveEvent, TokenError>(
                ApproveEvent { owner, spender, amount, expiration_ledger },
            )
            &&& e2.sequence <= expiration_ledger ==> allowance_step(t, e2, owner, spender).1
                == amount
            &&& expiration_ledger < e2.sequence ==> allowance_step(t, e2, owner, spender).1 == 0
        }),
{
}

proof fn lemma_holdings_unaffected_by_allowances(s: TokenState, t: TokenState, holders: Seq<Address>)
    requires
        s.balances == t.balances,
    ensures
        holdings(s, holders) == holdings(t, holders),
    decreases holders.len(),
{
    if holders.len() > 0 {
        lemma_holdings_unaffected_by_allowances(s, t, holders.drop_last());
    }
}

/// Minting `amount` to `to` raises the supply and the holdings of every list
/// of distinct holders that names `to` by exactly `amount`.
pub proof fn mint_adds_to_supply_and_holdings(
    s: TokenState,
    e: Env,
    to: Address,
    amount: i128,
    holders: Seq<Address>,
)
    requires
        s.minter is Some,
        holders.no_duplicates(),
        holders.contains(to),
        mint_step(s, e, to, amount).1 is Ok,
    ensures
        mint_step(s, e, to, amount).0.supply == s.supply + amount,
        holdings(mint_step(s, e, to, amount).0, holders) == holdings(s, holders) + amount,
{
    let credited = s.with_balance(to, (s.balance(to) + amount) as i128);
    lemma_holdings_with_balance(s, holders, to, (s.balance(to) + amount) as i128);
    lemma_holdings_unaffected_by_allowances(
        credited,
        credited.with_supply((s.supply + amount) as i128),
        holders,
    );
}

/// Burning `amount` of `from`'s tokens lowers the supply and the holdings of
/// every list of distinct holders that names `from` by exactly `amount`.
pub proof fn burn_removes_from_supply_and_holdings(
    s: TokenState,
    e: Env,
    from: Address,
    amount: i128,
    holders: Seq<Address>,
)
    requires
        holders.no_duplicates(),
        holders.contains(from),
        burn_step(s, e, from, amount).1 is Ok,
    ensures
        burn_step(s, e, from, amount).0.supply == s.supply - amount,
        holdings(burn_step(s, e, from, amount).0, holders) == holdings(s, holders) - amount,
{
    let debited = s.with_balance(from, (s.balance(from) - amount) as i128);
    lemma_holdings_with_balance(s, holders, from, (s.balance(from) - amount) as i128);
    lemma_holdings_unaffected_by_allowances(
        debited,
        debited.with_supply((s.supply - amount) as i128),
        holders,
    );
}

/// The supply stays within the cap, once one is set.
pub open spec fn within_cap(s: TokenState) -> bool {
    s.max_supply matches Some(cap) ==> s.supply <= cap
}

/// No call of the token pushes the supply past the cap: every entry point
/// that changes supply or cap keeps a token within its cap within it, and a
/// successful `set_max_supply` always leaves it within the new cap.
pub proof fn supply_stays_within_cap(
    s: TokenState,
    e: Env,
    a: Address,
    b: Address,
    c: Address,
    amount: i128,
)
    requires
        within_cap(s),
        s.minter is Some,
        s.admin is Some,
    ensures
        within_cap(mint_step(s, e, a, amount).0),
        within_cap(burn_step(s, e, a, amount).0),
        within_cap(transfer_step(s, e, a, b, amount).0),
        within_cap(transfer_from_step(s, e, a, b, c, amount).0),
        within_cap(set_max_supply_step(s, e, a, amount).0),
{
}

/// A successful `set_max_supply` leaves the supply within the new cap, even
/// from a state that was not.
pub proof fn set_max_supply_establishes_cap(s: TokenState, e: Env, caller: Address, max_supply: i128)
    requires
        s.admin is Some,
        set_max_supply_step(s, e, caller, max_supply).1 is Ok,
    ensures
        within_cap(set_max_supply_step(s, e, caller, max_supply).0),
        set_max_supply_step(s, e, caller, max_supply).0.max_supply == Some(max_supply),
{
}

/// A failed call changes nothing.
pub proof fn failed_calls_change_nothing(
    s: TokenState,
    e: Env,
    a: Address,
    b: Address,
    c: Address,
    amount: i128,
    ledger: u32,
    name: Seq<u8>,
    symbol: Seq<u8>,
)
    ensures
        initialize_step(s, a, name, symbol, ledger).1 is Err ==> initialize_step(
            s,
            a,
            name,
            symbol,
            ledger,
        ).0 == s,
        mint_step(s, e, a, amount).1 is Err ==> mint_step(s, e, a, amount).0 == s,
        transfer_step(s, e, a, b, amount).1 is Err ==> transfer_step(s, e, a, b, amount).0 == s,
        burn_step(s, e, a, amount).1 is Err ==> burn_step(s, e, a, amount).0 == s,
        set_max_supply_step(s, e, a, amount).1 is Err ==> set_max_supply_step(s, e, a, amount).0
            == s,
        set_metadata_step(s, e, a, name, symbol, ledger).1 is Err ==> set_metadata_step(
            s,
            e,
            a,
            name,
            symbol,
            ledger,
        ).0 == s,
        propose_admin_step(s, e, a, b).1 is Err ==> propose_admin_step(s, e, a, b).0 == s,
        accept_admin_step(s, e, a).1 is Err ==> accept_admin_step(s, e, a).0 == s,
        set_minter_step(s, e, a, b).1 is Err ==> set_minter_step(s, e, a, b).0 == s,
        approve_step(s, e, a, b, amount, ledger).1 is Err ==> approve_step(
            s,
            e,
            a,
            b,
            amount,
            ledger,
        ).0 == s,
        transfer_from_step(s, e, a, b, c, amount).1 is Err ==> transfer_from_step(
            s,
            e,
            a,
            b,
            c,
            amount,
        ).0 == s,
{
}

/// A proposal alone does not hand over the admin role; the proposed address
/// accepting it does.
pub proof fn admin_handover_takes_two_steps(
    s: TokenState,
    e: Env,
    current_admin: Address,
    new_admin: Address,
)
    requires
        s.admin is Some,
        propose_admin_step(s, e, current_admin, new_admin).1 is Ok,
        e.authorizes(new_admin),
    ensures
        propose_admin_step(s, e, current_admin, new_admin).0.admin == s.admin,
        accept_admin_step(propose_admin_step(s, e, current_admin, new_admin).0, e, new_admin).1
            is Ok,
        accept_admin_step(propose_admin_step(s, e, current_admin, new_admin).0, e, new_admin).0.admin
            == Some(new_admin),
        accept_admin_step(
            propose_admin_step(s, e, current_admin, new_admin).0,
            e,
            new_admin,
        ).0.pending_admin is None,
{
}

/// A live approval reads back as the approved amount, and `transfer_from`
/// lowers it by exactly the amount moved.
pub proof fn allowance_reads_back_and_is_spent(
    s: TokenState,
    e: Env,
    owner: Address,
    spender: Address,
    to: Address,
    amount: i128,
    expiration_ledger: u32,
    spent: i128,
)
    requires
        approve_step(s, e, owner, spender, amount, expiration_ledger).1 is Ok,
    ensures
        allowance_step(approve_step(s, e, owner, spender, amount, expiration_ledger).0, e, owner, spender).1
            == amount,
        transfer_from_step(
            approve_step(s, e, owner, spender, amount, expiration_ledger).0,
            e,
            spender,
            owner,
            to,
            spent,
        ).1 is Ok ==> transfer_from_step(
            approve_step(s, e, owner, spender, amount, expiration_ledger).0,
            e,
            spender,
            owner,
            to,
            spent,
        ).0.allowances[AllowanceKey { owner, spender }].amount == amount - spent,
{
}

/// Reading an expired allowance deletes it: afterwards it reads as never
/// granted.
pub proof fn expired_allowance_read_deletes_it(s: TokenState, e: Env, owner: Address, spender: Address)
    requires
        s.allowances.contains_key(AllowanceKey { owner, spender }),
        s.allowances[AllowanceKey { owner, spender }].expiration_ledger < e.sequence,
    ensures
        allowance_with_expiry_of(s, e, owner, spender) == Some(
            (0i128, s.allowances[AllowanceKey { owner, spender }].expiration_ledger),
        ),
        allowance_step(s, e, owner, spender).1 == 0,
        allowance_with_expiry_of(allowance_step(s, e, owner, spender).0, e, owner, spender) is None,
{
}

/// A balance as a number.
pub open spec fn as_amount() -> spec_fn(i128) -> int {
    |v: i128| v as int
}

/// The supply is the sum of all balances, and no balance is negative.
/// Before the token is initialized there is no minter and nothing issued.
pub open spec fn supply_is_sum_of_balances(s: TokenState) -> bool {
    &&& s.balances.dom().finite()
    &&& forall|a: Address| #[trigger] s.balances.contains_key(a) ==> s.balances[a] >= 0
    &&& s.supply == map_sum(s.balances, as_amount())
    &&& s.admin is None ==> s.minter is None && s.supply == 0
}

/// Setting one balance to a value that is not negative moves the sum of all
/// balances by the difference.
proof fn lemma_set_balance(s: TokenState, a: Address, v: i128)
    requires
        s.balances.dom().finite(),
        forall|b: Address| #[trigger] s.balances.contains_key(b) ==> s.balances[b] >= 0,
        v >= 0,
    ensures
        s.with_balance(a, v).balances.dom().finite(),
        forall|b: Address| #[trigger] s.with_balance(a, v).balances.contains_key(b) ==> s.with_balance(
            a,
            v,
        ).balances[b] >= 0,
        map_sum(s.with_balance(a, v).balances, as_amount()) == map_sum(s.balances, as_amount()) - s.balance(
            a,
        ) + v,
{
    lemma_map_sum_insert(s.balances, as_amount(), a, v);
}

/// While the supply is the sum of the balances, one balance is at most the
/// supply.
proof fn lemma_balance_within_supply(s: TokenState, a: Address)
    requires
        supply_is_sum_of_balances(s),
    ensures
        0 <= s.balance(a) <= s.supply,
{
    lemma_sum_bounds(s.balances, as_amount(), s.balances.dom());
    if s.balances.contains_key(a) {
        assert(s.balances.dom().contains(a));
    }
}

/// A fresh token holds nothing: its supply, 0, is the sum of its balances.
pub proof fn fresh_token_supply_is_sum_of_balances(s: TokenState)
    requires
        s.admin is None,
        s.minter is None,
        s.supply == 0,
        s.balances == Map::<Address, i128>::empty(),
    ensures
        supply_is_sum_of_balances(s),
{
    assert(s.balances.dom() =~= Set::<Address>::empty());
}

/// Every entry point keeps the supply equal to the sum of all balances with
/// no balance negative, so in every state reached from a fresh token the
/// supply is what the holders hold. Each call is taken with the inputs its
/// entry point accepts (a minter to mint, an admin for the admin-only ones).
pub proof fn supply_stays_sum_of_balances(
    s: TokenState,
    e: Env,
    a: Address,
    b: Address,
    c: Address,
    amount: i128,
    name: Seq<u8>,
    symbol: Seq<u8>,
    decimal: u32,
    ledger: u32,
)
    requires
        supply_is_sum_of_balances(s),
    ensures
        supply_is_sum_of_balances(initialize_step(s, a, name, symbol, decimal).0),
        s.minter is Some ==> supply_is_sum_of_balances(mint_step(s, e, a, amount).0),
        supply_is_sum_of_balances(transfer_step(s, e, a, b, amount).0),
        supply_is_sum_of_balances(burn_step(s, e, a, amount).0),
        supply_is_sum_of_balances(transfer_from_step(s, e, a, b, c, amount).0),
        supply_is_sum_of_balances(approve_step(s, e, a, b, amount, ledger).0),
        supply_is_sum_of_balances(allowance_step(s, e, a, b).0),
        s.admin is Some ==> supply_is_sum_of_balances(set_max_supply_step(s, e, a, amount).0),
        s.admin is Some ==> supply_is_sum_of_balances(set_metadata_step(s, e, a, name, symbol, decimal).0),
        s.admin is Some ==> supply_is_sum_of_balances(propose_admin_step(s, e, a, b).0),
        supply_is_sum_of_balances(accept_admin_step(s, e, a).0),
        s.admin is Some ==> supply_is_sum_of_balances(set_minter_step(s, e, a, b).0),
{
    // initialize: nothing issued before, so the zero supply still matches.
    if s.admin is None {
        lemma_sum_bounds(s.balances, as_amount(), s.balances.dom());
    }
    // mint
    if s.minter is Some && mint_step(s, e, a, amount).1 is Ok {
        lemma_set_balance(s, a, (s.balance(a) + amount) as i128);
        lemma_balance_within_supply(s, a);
    }
    // transfer
    if transfer_step(s, e, a, b, amount).1 is Ok {
        lemma_balance_within_supply(s, a);
        let d = s.with_balance(a, (s.balance(a) - amount) as i128);
        lemma_set_balance(s, a, (s.balance(a) - amount) as i128);
        lemma_set_balance(d, b, (d.balance(b) + amount) as i128);
    }
    // burn
    if burn_step(s, e, a, amount).1 is Ok {
        lemma_balance_within_supply(s, a);
        lemma_set_balance(s, a, (s.balance(a) - amount) as i128);
    }
    // transfer_from: the allowance changes, then two balances
    if transfer_from_step(s, e, a, b, c, amount).1 is Ok {
        lemma_balance_within_supply(s, b);
        let key = AllowanceKey { owner: b, spender: a };
        let al = s.allowances[key];
        let spent = s.with_allowance(
            b,
            a,
            crate::eco_token::storage::Allowance {
                amount: (al.amount - amount) as i128,
                expiration_ledger: al.expiration_ledger,
            },
        );
        assert(spent.balances == s.balances);
        let d = spent.with_balance(b, (s.balance(b) - amount) as i128);
        lemma_set_balance(spent, b, (s.balance(b) - amount) as i128);
        lemma_set_balance(d, c, (s.balance(c) + amount) as i128);
    }
}

} // verus!
