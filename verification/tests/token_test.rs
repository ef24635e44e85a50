use ecotask_contracts::eco_token::storage::{write_balance, write_supply, INSTANCE_TTL_EXTEND_TO, PERSISTENT_TTL_EXTEND_TO};
use ecotask_contracts::eco_token::token::{MinterUpdatedEvent, TokenContract, TokenError, TransferFromEvent};
use ecotask_contracts::env::{Address, Env};

fn ok<T>(r: Result<T, TokenError>) -> T {
    match r {
        Ok(v) => v,
        Err(err) => panic!("{}", err.message()),
    }
}

fn eco() -> Vec<u8> {
    b"ECO".to_vec()
}

/// A ledger at sequence 0 on which nobody has authorized anything yet, and a
/// token at address 100 initialized by `admin` as "ECO"/"ECO" with 7 decimals.
fn setup(admin: Address) -> (Env, TokenContract) {
    let e = Env::new();
    let mut token = TokenContract::new(Address(100));
    ok(token.initialize(&e, admin, eco(), eco(), 7));
    (e, token)
}

#[test]
fn test_initialize_and_metadata() {
    let admin = Address(1);
    let (e, token) = setup(admin);
    assert_eq!(token.name(&e), eco());
    assert_eq!(token.symbol(&e), eco());
    assert_eq!(token.decimal(&e), 7);
    assert_eq!(token.total_supply(&e), 0);
}

#[test]
fn test_mint_and_balance() {
    let (admin, user) = (Address(1), Address(2));
    let (mut e, mut token) = setup(admin);
    e.mock_all_auths = true;
    ok(token.mint(&e, user, 1000));
    assert_eq!(token.balance(&e, user), 1000);
    assert_eq!(token.total_supply(&e), 1000);
}

#[test]
fn test_transfer() {
    let (admin, from, to) = (Address(1), Address(2), Address(3));
    let (mut e, mut token) = setup(admin);
    e.mock_all_auths = true;
    ok(token.mint(&e, from, 500));
    ok(token.transfer(&e, from, to, 300));
    assert_eq!(token.balance(&e, from), 200);
    assert_eq!(token.balance(&e, to), 300);
}

#[test]
#[should_panic(expected = "token: amount must be positive")]
fn test_mint_zero_amount() {
    let (admin, user) = (Address(1), Address(2));
    let (mut e, mut token) = setup(admin);
    e.mock_all_auths = true;
    ok(token.mint(&e, user, 0));
}

#[test]
#[should_panic(expected = "token: insufficient balance")]
fn test_transfer_insufficient_balance() {
    let (admin, from, to) = (Address(1), Address(2), Address(3));
    let (mut e, mut token) = setup(admin);
    e.mock_all_auths = true;
    ok(token.transfer(&e, from, to, 100));
}

#[test]
#[should_panic]
fn test_mint_requires_minter_auth() {
    let (admin, user) = (Address(1), Address(2));
    let (e, mut token) = setup(admin);
    ok(token.mint(&e, user, 1000));
}

#[test]
fn test_initial_minter_is_admin() {
    let admin = Address(1);
    let (e, token) = setup(admin);
    assert_eq!(token.minter(&e), admin);
}

#[test]
fn test_set_minter_transfers_minting_rights() {
    let (admin, minter, user) = (Address(1), Address(2), Address(3));
    let (mut e, mut token) = setup(admin);
    e.mock_all_auths = true;
    ok(token.set_minter(&e, admin, minter));
    assert_eq!(token.minter(&e), minter);
    ok(token.mint(&e, user, 1000));
    assert_eq!(token.balance(&e, user), 1000);
    assert_eq!(token.total_supply(&e), 1000);
}

#[test]
#[should_panic(expected = "token: unauthorized")]
fn test_set_minter_unauthorized() {
    let (admin, attacker, minter) = (Address(1), Address(2), Address(3));
    let (mut e, mut token) = setup(admin);
    e.mock_all_auths = true;
    ok(token.set_minter(&e, attacker, minter));
}

#[test]
fn test_set_minter_emits_minter_updated_event() {
    let (admin, minter) = (Address(1), Address(2));
    let (mut e, mut token) = setup(admin);
    e.mock_all_auths = true;
    let event = ok(token.set_minter(&e, admin, minter));
    assert_eq!(event, MinterUpdatedEvent { admin, previous_minter: admin, new_minter: minter });
    assert_eq!(token.minter(&e), minter);
}

#[test]
#[should_panic(expected = "token: minter must differ from admin")]
fn test_set_minter_rejects_admin_as_minter() {
    let admin = Address(1);
    let (mut e, mut token) = setup(admin);
    e.mock_all_auths = true;
    ok(token.set_minter(&e, admin, admin));
}

#[test]
#[should_panic(expected = "token: already initialized")]
fn test_double_initialize_fails() {
    let admin = Address(1);
    let (e, mut token) = setup(admin);
    ok(token.initialize(&e, admin, eco(), eco(), 7));
}

#[test]
fn token_test_transfer_admin() {
    let (admin, new_admin) = (Address(1), Address(2));
    let (mut e, mut token) = setup(admin);
    e.mock_all_auths = true;
    ok(token.transfer_admin(&e, admin, new_admin));
    assert_eq!(token.admin(&e), admin);
    ok(token.accept_admin(&e, new_admin));
    assert_eq!(token.admin(&e), new_admin);
}

#[test]
fn token_test_propose_admin_overwrite() {
    let (admin, first, second) = (Address(1), Address(2), Address(3));
    let (mut e, mut token) = setup(admin);
    e.mock_all_auths = true;
    ok(token.propose_admin(&e, admin, first));
    ok(token.propose_admin(&e, admin, second));
    ok(token.accept_admin(&e, second));
    assert_eq!(token.admin(&e), second);
}

#[test]
#[should_panic(expected = "token: unauthorized pending admin")]
fn token_test_accept_admin_wrong_address() {
    let (admin, pending, wrong) = (Address(1), Address(2), Address(3));
    let (mut e, mut token) = setup(admin);
    e.mock_all_auths = true;
    ok(token.propose_admin(&e, admin, pending));
    ok(token.accept_admin(&e, wrong));
}

#[test]
#[should_panic(expected = "token: no pending admin")]
fn token_test_accept_admin_without_proposal() {
    let admin = Address(1);
    let (mut e, mut token) = setup(admin);
    e.mock_all_auths = true;
    ok(token.accept_admin(&e, Address(2)));
}

#[test]
#[should_panic(expected = "token: unauthorized")]
fn token_test_transfer_admin_unauthorized() {
    let (admin, attacker, new_admin) = (Address(1), Address(2), Address(3));
    let (mut e, mut token) = setup(admin);
    e.mock_all_auths = true;
    ok(token.transfer_admin(&e, attacker, new_admin));
}

#[test]
#[should_panic(expected = "token: new admin must be different")]
fn token_test_transfer_admin_same_address() {
    let admin = Address(1);
    let (mut e, mut token) = setup(admin);
    e.mock_all_auths = true;
    ok(token.transfer_admin(&e, admin, admin));
}

#[test]
fn test_burn() {
    let (admin, user) = (Address(1), Address(2));
    let (mut e, mut token) = setup(admin);
    e.mock_all_auths = true;
    ok(token.mint(&e, user, 1000));
    ok(token.burn(&e, user, 400));
    assert_eq!(token.balance(&e, user), 600);
    assert_eq!(token.total_supply(&e), 600);
}

#[test]
#[should_panic(expected = "token: insufficient balance")]
fn test_burn_more_than_balance() {
    let (admin, user) = (Address(1), Address(2));
    let (mut e, mut token) = setup(admin);
    e.mock_all_auths = true;
    ok(token.mint(&e, user, 100));
    ok(token.burn(&e, user, 200));
}

#[test]
#[should_panic(expected = "token: amount must be positive")]
fn test_burn_zero_amount() {
    let (admin, user) = (Address(1), Address(2));
    let (mut e, mut token) = setup(admin);
    e.mock_all_auths = true;
    ok(token.burn(&e, user, 0));
}

#[test]
fn test_approve_and_transfer_from() {
    let (admin, owner, spender, recipient) = (Address(1), Address(2), Address(3), Address(4));
    let (mut e, mut token) = setup(admin);
    e.mock_all_auths = true;
    ok(token.mint(&e, owner, 1000));
    ok(token.approve(&e, owner, spender, 500, e.sequence + 100));
    assert_eq!(token.allowance(&e, owner, spender), 500);
    ok(token.transfer_from(&e, spender, owner, recipient, 300));
    assert_eq!(token.balance(&e, owner), 700);
    assert_eq!(token.balance(&e, recipient), 300);
    assert_eq!(token.allowance(&e, owner, spender), 200);
}

#[test]
fn test_transfer_from_emits_event() {
    let (admin, owner, spender, recipient) = (Address(1), Address(2), Address(3), Address(4));
    let (mut e, mut token) = setup(admin);
    e.mock_all_auths = true;
    ok(token.mint(&e, owner, 1000));
    ok(token.approve(&e, owner, spender, 500, e.sequence + 100));
    let event = ok(token.transfer_from(&e, spender, owner, recipient, 300));
    assert_eq!(event, TransferFromEvent { from: owner, to: recipient, spender, amount: 300 });
}

#[test]
#[should_panic(expected = "token: insufficient allowance")]
fn test_transfer_from_exceeds_allowance() {
    let (admin, owner, spender, recipient) = (Address(1), Address(2), Address(3), Address(4));
    let (mut e, mut token) = setup(admin);
    e.mock_all_auths = true;
    ok(token.mint(&e, owner, 1000));
    ok(token.approve(&e, owner, spender, 100, e.sequence + 100));
    ok(token.transfer_from(&e, spender, owner, recipient, 200));
}

#[test]
#[should_panic(expected = "token: allowance not found")]
fn test_transfer_from_no_allowance() {
    let (admin, owner, spender, recipient) = (Address(1), Address(2), Address(3), Address(4));
    let (mut e, mut token) = setup(admin);
    e.mock_all_auths = true;
    ok(token.mint(&e, owner, 1000));
    ok(token.transfer_from(&e, spender, owner, recipient, 100));
}

#[test]
#[should_panic(expected = "token: cannot transfer to self")]
fn test_transfer_from_self_is_rejected() {
    let (admin, owner, spender) = (Address(1), Address(2), Address(3));
    let (mut e, mut token) = setup(admin);
    e.mock_all_auths = true;
    ok(token.mint(&e, owner, 1000));
    ok(token.approve(&e, owner, spender, 500, e.sequence + 100));
    ok(token.transfer_from(&e, spender, owner, owner, 100));
}

#[test]
fn test_zero_allowance_returns_zero() {
    let (admin, owner, spender) = (Address(1), Address(2), Address(3));
    let (e, mut token) = setup(admin);
    assert_eq!(token.allowance(&e, owner, spender), 0);
}

#[test]
fn test_allowance_with_expiry_live() {
    let (admin, owner, spender) = (Address(1), Address(2), Address(3));
    let (mut e, mut token) = setup(admin);
    e.mock_all_auths = true;
    let expiration_ledger = e.sequence + 100;
    ok(token.approve(&e, owner, spender, 500, expiration_ledger));
    assert_eq!(token.allowance(&e, owner, spender), 500);
    assert_eq!(token.allowance_with_expiry(&e, owner, spender), Some((500, expiration_ledger)));
}

#[test]
fn test_allowance_with_expiry_expired() {
    let (admin, owner, spender) = (Address(1), Address(2), Address(3));
    let (mut e, mut token) = setup(admin);
    e.mock_all_auths = true;
    let expiration_ledger = e.sequence + 50;
    ok(token.approve(&e, owner, spender, 500, expiration_ledger));
    e.sequence = expiration_ledger + 1;
    assert_eq!(token.allowance_with_expiry(&e, owner, spender), Some((0, expiration_ledger)));
    assert_eq!(token.allowance(&e, owner, spender), 0);
}

#[test]
fn test_allowance_with_expiry_none() {
    let (admin, owner, spender) = (Address(1), Address(2), Address(3));
    let (e, mut token) = setup(admin);
    assert_eq!(token.allowance(&e, owner, spender), 0);
    assert_eq!(token.allowance_with_expiry(&e, owner, spender), None);
}

#[test]
fn test_allowance_lazy_cleanup_of_expired() {
    let (admin, owner, spender) = (Address(1), Address(2), Address(3));
    let (mut e, mut token) = setup(admin);
    e.mock_all_auths = true;
    let expiration_ledger = e.sequence + 50;
    ok(token.approve(&e, owner, spender, 500, expiration_ledger));
    e.sequence = expiration_ledger + 1;
    assert_eq!(token.allowance_with_expiry(&e, owner, spender), Some((0, expiration_ledger)));
    assert_eq!(token.allowance(&e, owner, spender), 0);
    assert_eq!(token.allowance_with_expiry(&e, owner, spender), None);
}

#[test]
#[should_panic(expected = "token: amount must be positive")]
fn test_mint_negative_amount() {
    let (admin, user) = (Address(1), Address(2));
    let (mut e, mut token) = setup(admin);
    e.mock_all_auths = true;
    ok(token.mint(&e, user, -100));
}

#[test]
#[should_panic(expected = "token: amount must be positive")]
fn test_transfer_negative_amount() {
    let (admin, from, to) = (Address(1), Address(2), Address(3));
    let (mut e, mut token) = setup(admin);
    e.mock_all_auths = true;
    ok(token.mint(&e, from, 1000));
    ok(token.transfer(&e, from, to, -50));
}

#[test]
#[should_panic(expected = "token: amount must be positive")]
fn test_burn_negative_amount() {
    let (admin, user) = (Address(1), Address(2));
    let (mut e, mut token) = setup(admin);
    e.mock_all_auths = true;
    ok(token.burn(&e, user, -100));
}

#[test]
fn test_transfer_to_self() {
    let (admin, user) = (Address(1), Address(2));
    let (mut e, mut token) = setup(admin);
    e.mock_all_auths = true;
    ok(token.mint(&e, user, 1000));
    ok(token.transfer(&e, user, user, 500));
    assert_eq!(token.balance(&e, user), 1000);
}

#[test]
fn test_approve_overwrites_previous() {
    let (admin, owner, spender) = (Address(1), Address(2), Address(3));
    let (mut e, mut token) = setup(admin);
    e.mock_all_auths = true;
    ok(token.approve(&e, owner, spender, 500, e.sequence + 100));
    assert_eq!(token.allowance(&e, owner, spender), 500);
    ok(token.approve(&e, owner, spender, 200, e.sequence + 50));
    assert_eq!(token.allowance(&e, owner, spender), 200);
}

#[test]
fn test_burn_entire_balance() {
    let (admin, user) = (Address(1), Address(2));
    let (mut e, mut token) = setup(admin);
    e.mock_all_auths = true;
    ok(token.mint(&e, user, 500));
    ok(token.burn(&e, user, 500));
    assert_eq!(token.balance(&e, user), 0);
    assert_eq!(token.total_supply(&e), 0);
}

#[test]
#[should_panic(expected = "token: amount must be non-negative")]
fn test_approve_negative_amount() {
    let (admin, owner, spender) = (Address(1), Address(2), Address(3));
    let (mut e, mut token) = setup(admin);
    e.mock_all_auths = true;
    ok(token.approve(&e, owner, spender, -100, e.sequence + 100));
}

#[test]
#[should_panic(expected = "token: expiration must be in the future")]
fn test_approve_past_expiration() {
    let (admin, owner, spender) = (Address(1), Address(2), Address(3));
    let (mut e, mut token) = setup(admin);
    e.sequence = 100;
    e.mock_all_auths = true;
    ok(token.approve(&e, owner, spender, 500, 50));
}

#[test]
fn test_approve_zero_revokes_allowance() {
    let (admin, owner, spender) = (Address(1), Address(2), Address(3));
    let (mut e, mut token) = setup(admin);
    e.mock_all_auths = true;
    ok(token.approve(&e, owner, spender, 500, e.sequence + 100));
    assert_eq!(token.allowance(&e, owner, spender), 500);
    ok(token.approve(&e, owner, spender, 0, e.sequence + 100));
    assert_eq!(token.allowance(&e, owner, spender), 0);
}

#[test]
fn test_max_supply_defaults_to_no_cap() {
    let admin = Address(1);
    let (e, token) = setup(admin);
    assert_eq!(token.max_supply(&e), i128::MAX);
}

#[test]
fn test_set_max_supply_and_mint_at_cap() {
    let (admin, user) = (Address(1), Address(2));
    let (mut e, mut token) = setup(admin);
    e.mock_all_auths = true;
    ok(token.set_max_supply(&e, admin, 1000));
    assert_eq!(token.max_supply(&e), 1000);
    ok(token.mint(&e, user, 1000));
    assert_eq!(token.balance(&e, user), 1000);
    assert_eq!(token.total_supply(&e), 1000);
}

#[test]
#[should_panic(expected = "token: supply cap exceeded")]
fn test_mint_exceeding_supply_cap_fails() {
    let (admin, user) = (Address(1), Address(2));
    let (mut e, mut token) = setup(admin);
    e.mock_all_auths = true;
    ok(token.set_max_supply(&e, admin, 1000));
    ok(token.mint(&e, user, 600));
    ok(token.mint(&e, user, 500));
}

#[test]
#[should_panic(expected = "token: supply cap exceeded")]
fn test_mint_over_cap_on_first_issue_fails() {
    let (admin, user) = (Address(1), Address(2));
    let (mut e, mut token) = setup(admin);
    e.mock_all_auths = true;
    ok(token.set_max_supply(&e, admin, 500));
    ok(token.mint(&e, user, 501));
}

#[test]
#[should_panic(expected = "token: max supply must be positive")]
fn test_set_zero_max_supply_fails() {
    let admin = Address(1);
    let (mut e, mut token) = setup(admin);
    e.mock_all_auths = true;
    ok(token.set_max_supply(&e, admin, 0));
}

#[test]
#[should_panic(expected = "token: max supply below current supply")]
fn test_set_max_supply_below_current_supply_fails() {
    let (admin, user) = (Address(1), Address(2));
    let (mut e, mut token) = setup(admin);
    e.mock_all_auths = true;
    ok(token.mint(&e, user, 1000));
    ok(token.set_max_supply(&e, admin, 500));
}

#[test]
#[should_panic(expected = "token: unauthorized")]
fn test_set_max_supply_non_admin_fails() {
    let (admin, attacker) = (Address(1), Address(2));
    let (mut e, mut token) = setup(admin);
    e.mock_all_auths = true;
    ok(token.set_max_supply(&e, attacker, 1000));
}

#[test]
fn test_set_metadata_updates_token_info() {
    let admin = Address(1);
    let (mut e, mut token) = setup(admin);
    e.mock_all_auths = true;
    ok(token.set_metadata(&e, admin, b"EcoTask Token".to_vec(), b"ECOT".to_vec(), 6));
    assert_eq!(token.name(&e), b"EcoTask Token".to_vec());
    assert_eq!(token.symbol(&e), b"ECOT".to_vec());
    assert_eq!(token.decimal(&e), 6);
    assert_eq!(token.decimals(&e), 6);
}

#[test]
#[should_panic(expected = "token: unauthorized")]
fn test_set_metadata_non_admin_fails() {
    let (admin, attacker) = (Address(1), Address(2));
    let (mut e, mut token) = setup(admin);
    e.mock_all_auths = true;
    ok(token.set_metadata(&e, attacker, b"Hijacked".to_vec(), b"HACK".to_vec(), 7));
}

#[test]
fn test_decimals_matches_decimal() {
    let admin = Address(1);
    let (e, token) = setup(admin);
    assert_eq!(token.decimals(&e), 7);
    assert_eq!(token.decimal(&e), token.decimals(&e));
}

#[test]
fn test_mint_at_i128_max_supply() {
    let (admin, user) = (Address(1), Address(2));
    let (mut e, mut token) = setup(admin);
    e.mock_all_auths = true;
    assert_eq!(token.max_supply(&e), i128::MAX);
    ok(token.mint(&e, user, i128::MAX));
    assert_eq!(token.balance(&e, user), i128::MAX);
    assert_eq!(token.total_supply(&e), i128::MAX);
    let res = token.mint(&e, user, 1);
    assert!(res.is_err());
    ok(token.burn(&e, user, i128::MAX));
    assert_eq!(token.balance(&e, user), 0);
    assert_eq!(token.total_supply(&e), 0);
    ok(token.set_max_supply(&e, admin, i128::MAX));
    assert_eq!(token.max_supply(&e), i128::MAX);
    ok(token.mint(&e, user, i128::MAX));
    assert_eq!(token.balance(&e, user), i128::MAX);
    assert_eq!(token.total_supply(&e), i128::MAX);
    let res_cap = token.mint(&e, user, 1);
    assert!(res_cap.is_err());
}

#[test]
fn test_transfer_to_balance_overflow_boundary() {
    let (admin, from, to) = (Address(1), Address(2), Address(3));
    let (mut e, mut token) = setup(admin);
    e.mock_all_auths = true;
    write_balance(&mut token.storage, to, i128::MAX - 1);
    write_supply(&mut token.storage, i128::MAX - 1);
    write_balance(&mut token.storage, from, 2);
    let res = token.transfer(&e, from, to, 2);
    assert!(res.is_err());
}

#[test]
fn test_persistent_storage_survives_ledger_advancement() {
    let (admin, owner, spender, recipient) = (Address(1), Address(2), Address(3), Address(4));
    let (mut e, mut token) = setup(admin);
    e.mock_all_auths = true;
    ok(token.mint(&e, owner, 1000));
    ok(token.approve(&e, owner, spender, 500, e.sequence + 1_000_000));
    ok(token.transfer(&e, owner, recipient, 200));

    e.sequence = PERSISTENT_TTL_EXTEND_TO - 1;
    let _ = token.total_supply(&e);
    assert_eq!(token.balance(&e, owner), 800);
    assert_eq!(token.balance(&e, recipient), 200);
    assert_eq!(token.allowance(&e, owner, spender), 500);
    assert_eq!(token.admin(&e), admin);
    assert_eq!(token.name(&e), eco());
    assert_eq!(token.total_supply(&e), 1000);

    e.sequence = INSTANCE_TTL_EXTEND_TO - 1;
    ok(token.mint(&e, owner, 1));
    ok(token.approve(&e, owner, spender, 500, e.sequence + 1_000_000));
    assert_eq!(token.balance(&e, owner), 801);
    assert_eq!(token.allowance(&e, owner, spender), 500);
    assert_eq!(token.admin(&e), admin);
    assert_eq!(token.total_supply(&e), 1001);
}

#[test]
fn transfer_keeps_the_supply() {
    let (admin, from, to) = (Address(1), Address(2), Address(3));
    let (mut e, mut token) = setup(admin);
    e.mock_all_auths = true;
    ok(token.mint(&e, from, 1000));
    ok(token.transfer(&e, from, to, 999));
    assert_eq!(token.total_supply(&e), 1000);
    assert_eq!(token.balance(&e, from) + token.balance(&e, to), 1000);
    let failed = token.transfer(&e, from, to, 2);
    assert_eq!(failed, Err(TokenError::InsufficientBalance));
    assert_eq!(token.balance(&e, from), 1);
    assert_eq!(token.total_supply(&e), 1000);
}

#[test]
fn signer_list_authorizes_only_its_members() {
    let (admin, user) = (Address(1), Address(2));
    let (mut e, mut token) = setup(admin);
    e.signers = vec![user];
    assert_eq!(token.mint(&e, user, 10), Err(TokenError::NotAuthorized));
    e.signers = vec![admin];
    ok(token.mint(&e, user, 10));
    assert_eq!(token.balance(&e, user), 10);
}
