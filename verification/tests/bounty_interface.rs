use escrow_engine::bounty::{BountyEscrowContract, EscrowStatus};
use escrow_engine::error::Error;
use escrow_engine::types::{Address, Transfer};
use std::collections::HashMap;

struct Bank {
    balances: HashMap<Address, i128>,
}

#[allow(dead_code)]
impl Bank {
    fn new() -> Bank {
        Bank { balances: HashMap::new() }
    }

    fn mint(&mut self, to: &Address, amount: i128) {
        *self.balances.entry(*to).or_insert(0) += amount;
    }

    fn balance(&self, who: &Address) -> i128 {
        *self.balances.get(who).unwrap_or(&0)
    }

    fn covers(&self, transfers: &[Transfer]) -> bool {
        transfers.iter().all(|t| t.amount >= 0 && self.balance(&t.from) >= t.amount)
    }

    fn apply(&mut self, transfers: &[Transfer]) {
        for t in transfers {
            assert!(self.balance(&t.from) >= t.amount, "insufficient balance");
            *self.balances.entry(t.from).or_insert(0) -= t.amount;
            *self.balances.entry(t.to).or_insert(0) += t.amount;
        }
    }
}

fn contract_id() -> Address {
    Address::contract(0, 1)
}

fn token() -> Address {
    Address::contract(0, 2)
}

fn account(n: u128) -> Address {
    Address::account(0, n)
}

fn deployed() -> (BountyEscrowContract, Address, Address, Address, Bank) {
    let mut client = BountyEscrowContract::new(contract_id());
    let admin = account(1);
    let depositor = account(2);
    let contributor = account(3);
    let mut bank = Bank::new();
    client.init(admin, token()).unwrap();
    bank.mint(&depositor, 1_000_000);
    (client, admin, depositor, contributor, bank)
}

#[test]
fn test_escrow_interface_lock_funds_via_trait() {
    let (mut client, _admin, depositor, _contributor, mut bank) = deployed();
    let bounty_id = 1u64;
    let amount = 1000i128;
    let deadline = 0 + 3600;
    let out = client.lock_funds(depositor, depositor, bounty_id, amount, deadline).unwrap();
    bank.apply(&out.transfers);
    let escrow = client.get_escrow_info(bounty_id).unwrap();
    assert_eq!(escrow.amount, amount);
    assert_eq!(escrow.status, EscrowStatus::Locked);
}

#[test]
fn test_escrow_interface_release_funds_via_trait() {
    let (mut client, admin, depositor, contributor, mut bank) = deployed();
    let bounty_id = 1u64;
    let out = client.lock_funds(depositor, depositor, bounty_id, 1000, 3600).unwrap();
    bank.apply(&out.transfers);
    let out = client.release_funds(admin, bounty_id, contributor).unwrap();
    bank.apply(&out.transfers);
    let escrow = client.get_escrow_info(bounty_id).unwrap();
    assert_eq!(escrow.status, EscrowStatus::Released);
}

#[test]
fn test_escrow_interface_refund_via_trait() {
    let (mut client, _admin, depositor, _contributor, mut bank) = deployed();
    let bounty_id = 1u64;
    let deadline = 0 + 100;
    let out = client.lock_funds(depositor, depositor, bounty_id, 1000, deadline).unwrap();
    bank.apply(&out.transfers);
    let out = client.refund(bounty_id, deadline + 1).unwrap();
    bank.apply(&out.transfers);
    let escrow = client.get_escrow_info(bounty_id).unwrap();
    assert_eq!(escrow.status, EscrowStatus::Refunded);
}

#[test]
fn test_abi_compatibility_lock_and_release_sequence() {
    let (mut client, admin, depositor, contributor, mut bank) = deployed();
    let bounty_id = 1u64;
    let amount = 5000i128;
    let out = client.lock_funds(depositor, depositor, bounty_id, amount, 3600).unwrap();
    bank.apply(&out.transfers);
    let escrow = client.get_escrow_info(bounty_id).unwrap();
    assert_eq!(escrow.status, EscrowStatus::Locked);
    assert_eq!(escrow.remaining_amount, amount);
    let out = client.release_funds(admin, bounty_id, contributor).unwrap();
    bank.apply(&out.transfers);
    let escrow = client.get_escrow_info(bounty_id).unwrap();
    assert_eq!(escrow.status, EscrowStatus::Released);
    assert_eq!(escrow.remaining_amount, 0);
}

#[test]
fn test_interface_stability_version_compatibility() {
    let (mut client, _admin, depositor, _contributor, mut bank) = deployed();
    let bounty_id = 1u64;
    let out = client.lock_funds(depositor, depositor, bounty_id, 1000, 3600).unwrap();
    bank.apply(&out.transfers);
    let balance = client.get_balance();
    let escrow = client.get_escrow_info(bounty_id).unwrap();
    assert_eq!(balance, 1000);
    assert_eq!(escrow.deadline, 3600);
}

#[test]
fn test_interface_error_handling_consistency() {
    let (mut client, _admin, depositor, _contributor, mut bank) = deployed();
    let bounty_id = 1u64;
    let amount = 1000i128;
    let out = client.lock_funds(depositor, depositor, bounty_id, amount, 3600).unwrap();
    bank.apply(&out.transfers);
    let escrow = client.get_escrow_info(bounty_id).unwrap();
    assert_eq!(escrow.status, EscrowStatus::Locked);
    assert_eq!(escrow.amount, amount);
    assert_eq!(
        client.lock_funds(depositor, depositor, bounty_id, amount, 3600).map(|o| o.value),
        Err(Error::AlreadyExists)
    );
}

#[test]
fn test_cross_contract_state_consistency() {
    let (mut client, _admin, depositor, _contributor, mut bank) = deployed();
    let bounty_id = 1u64;
    let out = client.lock_funds(depositor, depositor, bounty_id, 1000, 3600).unwrap();
    bank.apply(&out.transfers);
    let escrow1 = client.get_escrow_info(bounty_id).unwrap();
    let escrow2 = client.get_escrow_info(bounty_id).unwrap();
    assert_eq!(escrow1.amount, escrow2.amount);
    assert_eq!(escrow1.status, escrow2.status);
    assert_eq!(escrow1.remaining_amount, escrow2.remaining_amount);
    assert_eq!(escrow1.deadline, escrow2.deadline);
}

#[test]
fn test_partial_release_interface_compatibility() {
    let (mut client, admin, depositor, contributor, mut bank) = deployed();
    let bounty_id = 1u64;
    let amount = 1000i128;
    let out = client.lock_funds(depositor, depositor, bounty_id, amount, 3600).unwrap();
    bank.apply(&out.transfers);
    let partial_amount = 300i128;
    let out = client.partial_release(admin, bounty_id, contributor, partial_amount).unwrap();
    bank.apply(&out.transfers);
    let escrow = client.get_escrow_info(bounty_id).unwrap();
    assert_eq!(escrow.remaining_amount, amount - partial_amount);
    assert_eq!(bank.balance(&contributor), partial_amount);
}

#[test]
fn test_batch_operations_interface_compatibility() {
    let (mut client, _admin, depositor, _contributor, mut bank) = deployed();
    for i in 0..3 {
        let bounty_id = i as u64;
        let out = client.lock_funds(depositor, depositor, bounty_id, 1000i128, 3600).unwrap();
        bank.apply(&out.transfers);
    }
    for i in 0..3 {
        let bounty_id = i as u64;
        let escrow = client.get_escrow_info(bounty_id).unwrap();
        assert_eq!(escrow.status, EscrowStatus::Locked);
    }
}

#[test]
fn parity_lock_flow() {
    let amount = 10_000i128;
    let (mut client, _admin, depositor, _contributor, mut bank) = deployed();
    let out = client.lock_funds(depositor, depositor, 1, amount, 100).unwrap();
    bank.apply(&out.transfers);
    assert_eq!(bank.balance(&contract_id()), amount);
    assert!(true);
}

#[test]
fn parity_release_flow() {
    let amount = 10_000i128;
    let (mut client, admin, depositor, contributor, mut bank) = deployed();
    let out = client.lock_funds(depositor, depositor, 1, amount, 100).unwrap();
    bank.apply(&out.transfers);
    let out = client.release_funds(admin, 1, contributor).unwrap();
    bank.apply(&out.transfers);
    assert_eq!(bank.balance(&contributor), amount);
    assert!(true);
}

#[test]
fn parity_refund_flow() {
    let amount = 10_000i128;
    let (mut client, _admin, depositor, _contributor, mut bank) = deployed();
    let before = bank.balance(&depositor);
    let out = client.lock_funds(depositor, depositor, 1, amount, 100).unwrap();
    bank.apply(&out.transfers);
    let out = client.refund(1, 100).unwrap();
    bank.apply(&out.transfers);
    assert_eq!(bank.balance(&depositor), before);
    assert!(true);
}

#[test]
fn parity_double_release_fails() {
    let amount = 10_000i128;
    let (mut client, admin, depositor, contributor, _bank) = deployed();
    client.lock_funds(depositor, depositor, 1, amount, 100).unwrap();
    client.release_funds(admin, 1, contributor).unwrap();
    assert_eq!(
        client.release_funds(admin, 1, contributor).map(|o| o.value),
        Err(Error::FundsNotLocked)
    );
    assert!(true);
}

#[test]
fn parity_double_refund_fails() {
    let amount = 10_000i128;
    let (mut client, _admin, depositor, _contributor, _bank) = deployed();
    client.lock_funds(depositor, depositor, 1, amount, 100).unwrap();
    client.refund(1, 100).unwrap();
    assert_eq!(client.refund(1, 101).map(|o| o.value), Err(Error::FundsNotLocked));
    assert!(true);
}

#[test]
fn parity_refund_before_deadline_fails() {
    let amount = 10_000i128;
    let (mut client, _admin, depositor, _contributor, _bank) = deployed();
    client.lock_funds(depositor, depositor, 1, amount, 100).unwrap();
    assert_eq!(client.refund(1, 99).map(|o| o.value), Err(Error::DeadlineNotPassed));
    assert!(true);
}
