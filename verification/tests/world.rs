use executive::hash::{Address, H256};
use executive::state::State;
use executive::substate::{AddressSet, Substate};
use executive::uint::U256;

fn account(last: u8) -> Address {
    let mut bytes = [0u8; 20];
    bytes[19] = last;
    Address { bytes }
}

fn slot(last: u8) -> H256 {
    let mut bytes = [0u8; 32];
    bytes[31] = last;
    H256 { bytes }
}

#[test]
fn transfers_keep_the_supply() {
    let mut state = State::new_temp();
    state.add_balance(&account(1), &U256::from_u64(10));
    state.transfer_balance(&account(1), &account(2), &U256::from_u64(4));
    assert_eq!(state.balance(&account(1)), U256::from_u64(6));
    assert_eq!(state.balance(&account(2)), U256::from_u64(4));
    state.transfer_balance(&account(1), &account(1), &U256::from_u64(6));
    assert_eq!(state.balance(&account(1)), U256::from_u64(6));
    state.sub_balance(&account(1), &U256::from_u64(5));
    assert_eq!(state.balance(&account(1)), U256::from_u64(1));
}

#[test]
fn accounts_start_empty() {
    let mut state = State::new_temp();
    assert_eq!(state.account_exists(&account(1)), false);
    assert_eq!(state.balance(&account(1)), U256::zero());
    assert_eq!(state.nonce(&account(1)), U256::zero());
    assert_eq!(state.code(&account(1)), None);
    assert_eq!(state.storage_at(&account(1), &slot(1)), H256::new());
    state.add_balance(&account(1), &U256::zero());
    assert_eq!(state.account_exists(&account(1)), true);
    assert_eq!(state.code(&account(1)), Some(vec![]));
}

#[test]
fn new_contract_resets_only_the_code() {
    let mut state = State::new_temp();
    state.init_code(&account(1), vec![1, 2]);
    state.add_balance(&account(1), &U256::from_u64(3));
    state.inc_nonce(&account(1));
    state.set_storage(&account(1), slot(4), slot(5));
    state.new_contract(&account(1));
    assert_eq!(state.code(&account(1)), Some(vec![]));
    assert_eq!(state.balance(&account(1)), U256::from_u64(3));
    assert_eq!(state.nonce(&account(1)), U256::one());
    assert_eq!(state.storage_at(&account(1), &slot(4)), slot(5));
}

#[test]
fn removed_accounts_are_gone_until_reverted() {
    let mut state = State::new_temp();
    state.init_code(&account(1), vec![1]);
    state.set_storage(&account(1), slot(1), slot(2));
    state.set_storage(&account(1), slot(1), slot(3));
    let backup = state.clone();
    state.kill_account(&account(1));
    state.kill_account(&account(2));
    assert_eq!(state.account_exists(&account(1)), false);
    assert_eq!(state.storage_at(&account(1), &slot(1)), H256::new());
    state.revert(backup);
    assert_eq!(state.code(&account(1)), Some(vec![1]));
    assert_eq!(state.storage_at(&account(1), &slot(1)), slot(3));
}

#[test]
fn addresses_are_in_a_set_once() {
    let mut set = AddressSet::new();
    assert_eq!(set.len(), 0);
    set.insert(&account(1));
    set.insert(&account(2));
    set.insert(&account(1));
    assert_eq!(set.len(), 2);
    assert!(set.contains(&account(2)));
    assert!(!set.contains(&account(3)));
    assert_eq!(set.items(), &vec![account(1), account(2)]);
}

#[test]
fn substate_starts_empty() {
    let substate = Substate::new();
    assert_eq!(substate.out_of_gas(), false);
    assert_eq!(substate.suicides.len(), 0);
    assert_eq!(substate.logs.len(), 0);
    assert_eq!(substate.refunds_count, U256::zero());
    assert_eq!(substate.contracts_created.len(), 0);
}

#[test]
fn credit_without_room_is_lost() {
    let all = U256 { hi: u128::MAX, lo: u128::MAX };
    let mut state = State::new_temp();
    state.add_balance(&account(1), &all);
    state.add_balance(&account(2), &U256::from_u64(3));
    state.transfer_balance(&account(2), &account(1), &U256::from_u64(2));
    assert_eq!(state.balance(&account(1)), U256::one());
    assert_eq!(state.balance(&account(2)), U256::one());
    // what an account pays to itself always has room
    state.sub_balance(&account(1), &U256::from_u64(2));
    assert_eq!(state.balance(&account(1)), all);
    state.transfer_balance(&account(1), &account(1), &all);
    assert_eq!(state.balance(&account(1)), all);
}
