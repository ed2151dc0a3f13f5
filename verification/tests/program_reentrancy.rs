use escrow_engine::error::Error;
use escrow_engine::program::ProgramEscrowContract;
use escrow_engine::types::{Address, Transfer};
use std::collections::HashMap;

struct Bank {
    balances: HashMap<Address, i128>,
}

impl Bank {
    fn new() -> Bank {
        Bank { balances: HashMap::new() }
    }

    fn mint(&mut self, to: &Address, amount: i128) {
        *self.balances.entry(*to).or_insert(0) += amount;
    }

    fn balance(&self, who: &Address) -> i128 {
        *self.balances.get(who).unwrap_or(&0)
    }

    fn transfer(&mut self, from: &Address, to: &Address, amount: i128) {
        self.apply(&[Transfer { from: *from, to: *to, amount }]);
    }

    fn apply(&mut self, transfers: &[Transfer]) {
        for t in transfers {
            assert!(self.balance(&t.from) >= t.amount, "insufficient balance");
            *self.balances.entry(t.from).or_insert(0) -= t.amount;
            *self.balances.entry(t.to).or_insert(0) += t.amount;
        }
    }
}

fn contract_id() -> Address {
    Address::contract(0, 1)
}

/// A program funded with `amount` by its authorized key.
fn funded(amount: i128) -> (ProgramEscrowContract, Address, Bank) {
    let mut client = ProgramEscrowContract::new(contract_id());
    let authorized_key = Address::account(0, 100);
    let token = Address::contract(0, 2);
    let mut bank = Bank::new();
    bank.mint(&authorized_key, amount);
    client.set_admin(authorized_key, authorized_key).unwrap();
    client.init_program(String::from("test-program"), authorized_key, token, 0).unwrap();
    bank.transfer(&authorized_key, &contract_id(), amount);
    client.lock_program_funds(authorized_key, amount, 0).unwrap();
    (client, authorized_key, bank)
}

#[test]
fn test_single_payout_normal_execution() {
    let amount = 1000_0000000i128;
    let (mut client, authorized_key, mut bank) = funded(amount);
    let recipient = Address::account(0, 101);
    let out = client.single_payout(authorized_key, recipient, amount / 2, 0).unwrap();
    bank.apply(&out.transfers);
    assert_eq!(client.get_program_info().unwrap().remaining_balance, amount / 2);
    assert_eq!(bank.balance(&recipient), amount / 2);
}

#[test]
fn test_single_payout_blocks_reentrancy() {
    let amount = 1000_0000000i128;
    let (mut client, authorized_key, _bank) = funded(amount);
    client.set_entered();
    let r = client.single_payout(authorized_key, authorized_key, amount / 2, 0);
    assert_eq!(r.map(|o| o.value), Err(Error::Reentrancy));
    assert_eq!(client.get_remaining_balance(), Ok(amount));
    assert!(client.is_entered());
}

#[test]
fn test_batch_payout_normal_execution() {
    let total_amount = 1000_0000000i128;
    let (mut client, authorized_key, mut bank) = funded(total_amount);
    let recipients = vec![Address::account(0, 101), Address::account(0, 102)];
    let amounts = vec![400_0000000i128, 600_0000000i128];
    let out = client.batch_payout(authorized_key, &recipients, &amounts, 0).unwrap();
    bank.apply(&out.transfers);
    assert_eq!(client.get_program_info().unwrap().remaining_balance, 0);
    assert_eq!(bank.balance(&contract_id()), 0);
}

#[test]
fn test_batch_payout_blocks_reentrancy() {
    let total_amount = 1000_0000000i128;
    let (mut client, authorized_key, _bank) = funded(total_amount);
    client.set_entered();
    let recipients = vec![Address::account(0, 101), Address::account(0, 102)];
    let amounts = vec![400_0000000i128, 600_0000000i128];
    let r = client.batch_payout(authorized_key, &recipients, &amounts, 0);
    assert_eq!(r.map(|o| o.value), Err(Error::Reentrancy));
    assert_eq!(client.get_program_info().unwrap().payout_history.len(), 0);
}

#[test]
fn test_cross_function_reentrancy_single_to_batch() {
    let amount = 1000_0000000i128;
    let (mut client, authorized_key, _bank) = funded(amount);
    // As if inside single_payout.
    client.set_entered();
    let r = client.batch_payout(authorized_key, &vec![Address::account(0, 101)], &vec![amount / 2], 0);
    assert_eq!(r.map(|o| o.value), Err(Error::Reentrancy));
}

#[test]
fn test_cross_function_reentrancy_batch_to_single() {
    let amount = 1000_0000000i128;
    let (mut client, authorized_key, _bank) = funded(amount);
    // As if inside batch_payout.
    client.set_entered();
    let r = client.single_payout(authorized_key, Address::account(0, 101), amount / 2, 0);
    assert_eq!(r.map(|o| o.value), Err(Error::Reentrancy));
}

#[test]
fn test_trigger_releases_normal_execution() {
    let amount = 1000_0000000i128;
    let release_timestamp = 1000u64;
    let (mut client, authorized_key, mut bank) = funded(amount);
    let recipient = Address::account(0, 101);
    client
        .create_program_release_schedule(authorized_key, recipient, amount, release_timestamp, 0)
        .unwrap();
    let out = client.trigger_program_releases(authorized_key, release_timestamp + 1).unwrap();
    bank.apply(&out.transfers);
    assert_eq!(out.value, 1);
    assert_eq!(bank.balance(&recipient), amount);
}

#[test]
fn test_trigger_releases_blocks_reentrancy() {
    let amount = 1000_0000000i128;
    let release_timestamp = 1000u64;
    let (mut client, authorized_key, _bank) = funded(amount);
    let recipient = Address::account(0, 101);
    client
        .create_program_release_schedule(authorized_key, recipient, amount, release_timestamp, 0)
        .unwrap();
    client.set_entered();
    let r = client.trigger_program_releases(authorized_key, release_timestamp + 1);
    assert_eq!(r.map(|o| o.value), Err(Error::Reentrancy));
    assert!(!client.get_program_release_schedules()[0].released);
}

#[test]
fn test_multiple_sequential_payouts_succeed() {
    let total_amount = 1000_0000000i128;
    let payout_amount = 300_0000000i128;
    let (mut client, authorized_key, mut bank) = funded(total_amount);
    for n in 0..3u128 {
        let out = client
            .single_payout(authorized_key, Address::account(0, 101 + n), payout_amount, 0)
            .unwrap();
        bank.apply(&out.transfers);
    }
    let program_data = client.get_program_info().unwrap();
    assert_eq!(program_data.remaining_balance, total_amount - (payout_amount * 3));
}

#[test]
fn test_guard_cleared_after_successful_payout() {
    let amount = 1000_0000000i128;
    let (mut client, authorized_key, _bank) = funded(amount);
    assert!(!client.is_entered());
    client.single_payout(authorized_key, Address::account(0, 101), amount / 2, 0).unwrap();
    assert!(!client.is_entered());
}

#[test]
fn test_guard_state_across_multiple_operations() {
    let total_amount = 1000_0000000i128;
    let (mut client, authorized_key, _bank) = funded(total_amount);
    let recipient1 = Address::account(0, 101);
    let recipient2 = Address::account(0, 102);
    assert!(!client.is_entered());
    client.single_payout(authorized_key, recipient1, 300_0000000i128, 0).unwrap();
    assert!(!client.is_entered());
    client.batch_payout(authorized_key, &vec![recipient2], &vec![200_0000000i128], 0).unwrap();
    assert!(!client.is_entered());
    client.single_payout(authorized_key, recipient1, 100_0000000i128, 0).unwrap();
    assert!(!client.is_entered());
}

#[test]
fn every_program_mutator_refuses_a_nested_call() {
    let (mut client, key, _bank) = funded(1_000);
    let other = Address::account(0, 5);
    client.set_admin(key, key).unwrap();
    client.set_entered();
    assert_eq!(client.check_not_entered(), Err(Error::Reentrancy));
    assert_eq!(client.lock_program_funds(key, 1, 0).map(|o| o.value), Err(Error::Reentrancy));
    assert_eq!(client.approve_payout(key, other, 0).map(|o| o.value), Err(Error::Reentrancy));
    assert_eq!(
        client.create_program_release_schedule(key, other, 1, 1, 0).map(|o| o.value),
        Err(Error::Reentrancy)
    );
    assert_eq!(client.set_admin(key, other), Err(Error::Reentrancy));
    assert_eq!(client.set_whitelist(key, other, true), Err(Error::Reentrancy));
    assert_eq!(client.update_rate_limit_config(key, 1, 1, 1), Err(Error::Reentrancy));
    assert_eq!(
        client.set_paused(key, Some(true), None, None).map(|o| o.value),
        Err(Error::Reentrancy)
    );
    assert_eq!(client.reset_circuit_breaker(key).map(|o| o.value), Err(Error::Reentrancy));
    assert_eq!(client.set_circuit_admin(key, None), Err(Error::Reentrancy));
    assert_eq!(
        client.batch_initialize_programs(&vec![]).map(|o| o.value),
        Err(Error::Reentrancy)
    );
    assert_eq!(client.upgrade(key, client.get_wasm_hash()), Err(Error::Reentrancy));
    client.clear_entered();
    assert_eq!(client.check_not_entered(), Ok(()));
    assert!(client.lock_program_funds(key, 1, 0).is_ok());
}
