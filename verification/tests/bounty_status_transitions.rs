use escrow_engine::bounty::{BountyEscrowContract, EscrowStatus, RefundMode};
use escrow_engine::error::Error;
use escrow_engine::types::{Address, Transfer};
use std::collections::HashMap;

struct Bank {
    balances: HashMap<Address, i128>,
}

#[allow(dead_code)]
impl Bank {
    fn new() -> Bank {
        Bank { balances: HashMap::new() }
    }

    fn mint(&mut self, to: &Address, amount: i128) {
        *self.balances.entry(*to).or_insert(0) += amount;
    }

    fn balance(&self, who: &Address) -> i128 {
        *self.balances.get(who).unwrap_or(&0)
    }

    fn covers(&self, transfers: &[Transfer]) -> bool {
        transfers.iter().all(|t| t.amount >= 0 && self.balance(&t.from) >= t.amount)
    }

    fn apply(&mut self, transfers: &[Transfer]) {
        for t in transfers {
            assert!(self.balance(&t.from) >= t.amount, "insufficient balance");
            *self.balances.entry(t.from).or_insert(0) -= t.amount;
            *self.balances.entry(t.to).or_insert(0) += t.amount;
        }
    }
}

fn contract_id() -> Address {
    Address::contract(0, 1)
}

fn token() -> Address {
    Address::contract(0, 2)
}

fn account(n: u128) -> Address {
    Address::account(0, n)
}

#[allow(dead_code)]
struct TestSetup {
    now: u64,
    admin: Address,
    depositor: Address,
    contributor: Address,
    random_user: Address,
    bank: Bank,
    escrow: BountyEscrowContract,
}

#[allow(dead_code)]
impl TestSetup {
    fn new() -> Self {
        let admin = account(1);
        let depositor = account(2);
        let contributor = account(3);
        let random_user = account(4);
        let mut bank = Bank::new();
        let mut escrow = BountyEscrowContract::new(contract_id());
        escrow.init(admin, token()).unwrap();
        bank.mint(&depositor, 1_000_000);
        Self { now: 0, admin, depositor, contributor, random_user, bank, escrow }
    }

    fn lock(&mut self, bounty_id: u64, amount: i128, deadline: u64) {
        let depositor = self.depositor;
        let out = self.escrow.lock_funds(depositor, depositor, bounty_id, amount, deadline).unwrap();
        self.bank.apply(&out.transfers);
    }

    fn release(&mut self, bounty_id: u64, to: Address) -> Result<(), Error> {
        let admin = self.admin;
        let out = self.escrow.release_funds(admin, bounty_id, to)?;
        self.bank.apply(&out.transfers);
        Ok(())
    }

    fn refund(&mut self, bounty_id: u64) -> Result<(), Error> {
        let out = self.escrow.refund(bounty_id, self.now)?;
        self.bank.apply(&out.transfers);
        Ok(())
    }

    fn status(&self, bounty_id: u64) -> EscrowStatus {
        self.escrow.get_escrow_info(bounty_id).unwrap().status
    }
}

#[test]
fn test_locked_to_released() {
    let mut setup = TestSetup::new();
    let bounty_id = 1;
    let deadline = setup.now + 1000;
    setup.lock(bounty_id, 1000, deadline);
    assert_eq!(setup.status(bounty_id), EscrowStatus::Locked);
    let contributor = setup.contributor;
    setup.release(bounty_id, contributor).unwrap();
    assert_eq!(setup.status(bounty_id), EscrowStatus::Released);
}

#[test]
fn test_locked_to_refunded() {
    let mut setup = TestSetup::new();
    let bounty_id = 1;
    let deadline = setup.now + 100;
    setup.lock(bounty_id, 1000, deadline);
    assert_eq!(setup.status(bounty_id), EscrowStatus::Locked);
    setup.now = deadline + 1;
    setup.refund(bounty_id).unwrap();
    assert_eq!(setup.status(bounty_id), EscrowStatus::Refunded);
}

#[test]
fn test_locked_to_partially_refunded() {
    let mut setup = TestSetup::new();
    let bounty_id = 1;
    let deadline = setup.now + 100;
    setup.lock(bounty_id, 1000, deadline);
    assert_eq!(setup.status(bounty_id), EscrowStatus::Locked);
    let (admin, depositor) = (setup.admin, setup.depositor);
    setup.escrow.approve_refund(admin, bounty_id, 500, depositor, RefundMode::Partial).unwrap();
    setup.refund(bounty_id).unwrap();
    assert_eq!(setup.status(bounty_id), EscrowStatus::PartiallyRefunded);
    assert_eq!(setup.escrow.get_escrow_info(bounty_id).unwrap().remaining_amount, 500);
    assert_eq!(setup.bank.balance(&depositor), 1_000_000 - 500);
}

#[test]
fn test_partially_refunded_to_refunded() {
    let mut setup = TestSetup::new();
    let bounty_id = 1;
    let deadline = setup.now + 100;
    setup.lock(bounty_id, 1000, deadline);
    let (admin, depositor) = (setup.admin, setup.depositor);
    setup.escrow.approve_refund(admin, bounty_id, 500, depositor, RefundMode::Partial).unwrap();
    setup.refund(bounty_id).unwrap();
    assert_eq!(setup.status(bounty_id), EscrowStatus::PartiallyRefunded);
    setup.now = deadline + 1;
    setup.refund(bounty_id).unwrap();
    assert_eq!(setup.status(bounty_id), EscrowStatus::Refunded);
    assert_eq!(setup.bank.balance(&depositor), 1_000_000);
    assert!(setup.escrow.check_invariants());
}

#[test]
fn test_released_to_locked_fails() {
    let mut setup = TestSetup::new();
    let bounty_id = 1;
    let deadline = setup.now + 1000;
    setup.lock(bounty_id, 1000, deadline);
    let (contributor, depositor) = (setup.contributor, setup.depositor);
    setup.release(bounty_id, contributor).unwrap();
    let again = setup.escrow.lock_funds(depositor, depositor, bounty_id, 1000, deadline);
    assert_eq!(again.map(|o| o.value), Err(Error::AlreadyExists));
    assert_eq!(Error::AlreadyExists.code(), 3);
}

#[test]
fn test_released_to_released_fails() {
    let mut setup = TestSetup::new();
    let bounty_id = 1;
    let deadline = setup.now + 1000;
    setup.lock(bounty_id, 1000, deadline);
    let contributor = setup.contributor;
    setup.release(bounty_id, contributor).unwrap();
    assert_eq!(setup.release(bounty_id, contributor), Err(Error::FundsNotLocked));
    assert_eq!(Error::FundsNotLocked.code(), 5);
    assert_eq!(setup.bank.balance(&contributor), 1000);
}

#[test]
fn test_released_to_refunded_fails() {
    let mut setup = TestSetup::new();
    let bounty_id = 1;
    let deadline = setup.now + 100;
    setup.lock(bounty_id, 1000, deadline);
    let contributor = setup.contributor;
    setup.release(bounty_id, contributor).unwrap();
    setup.now = deadline + 1;
    assert_eq!(setup.refund(bounty_id), Err(Error::FundsNotLocked));
}

#[test]
fn test_released_to_partially_refunded_fails() {
    let mut setup = TestSetup::new();
    let bounty_id = 1;
    let deadline = setup.now + 100;
    setup.lock(bounty_id, 1000, deadline);
    let (admin, contributor) = (setup.admin, setup.contributor);
    setup.release(bounty_id, contributor).unwrap();
    setup.now = deadline + 1;
    let r = setup.escrow.partial_release(admin, bounty_id, contributor, 500);
    assert_eq!(r.map(|o| o.value), Err(Error::FundsNotLocked));
}

#[test]
fn test_refunded_to_locked_fails() {
    let mut setup = TestSetup::new();
    let bounty_id = 1;
    let deadline = setup.now + 100;
    setup.lock(bounty_id, 1000, deadline);
    setup.now = deadline + 1;
    setup.refund(bounty_id).unwrap();
    let depositor = setup.depositor;
    let again = setup.escrow.lock_funds(depositor, depositor, bounty_id, 1000, deadline);
    assert_eq!(again.map(|o| o.value), Err(Error::AlreadyExists));
}

#[test]
fn test_refunded_to_released_fails() {
    let mut setup = TestSetup::new();
    let bounty_id = 1;
    let deadline = setup.now + 100;
    setup.lock(bounty_id, 1000, deadline);
    setup.now = deadline + 1;
    setup.refund(bounty_id).unwrap();
    let contributor = setup.contributor;
    assert_eq!(setup.release(bounty_id, contributor), Err(Error::FundsNotLocked));
}

#[test]
fn test_refunded_to_refunded_fails() {
    let mut setup = TestSetup::new();
    let bounty_id = 1;
    let deadline = setup.now + 100;
    setup.lock(bounty_id, 1000, deadline);
    setup.now = deadline + 1;
    setup.refund(bounty_id).unwrap();
    assert_eq!(setup.refund(bounty_id), Err(Error::FundsNotLocked));
    assert_eq!(setup.bank.balance(&setup.depositor), 1_000_000);
}

#[test]
fn test_refunded_to_partially_refunded_fails() {
    let mut setup = TestSetup::new();
    let bounty_id = 1;
    let deadline = setup.now + 100;
    setup.lock(bounty_id, 1000, deadline);
    setup.now = deadline + 1;
    setup.refund(bounty_id).unwrap();
    let (admin, contributor) = (setup.admin, setup.contributor);
    let r = setup.escrow.partial_release(admin, bounty_id, contributor, 100);
    assert_eq!(r.map(|o| o.value), Err(Error::FundsNotLocked));
}

#[test]
fn test_partially_refunded_to_locked_fails() {
    let mut setup = TestSetup::new();
    let bounty_id = 1;
    let deadline = setup.now + 100;
    setup.lock(bounty_id, 1000, deadline);
    let (admin, depositor) = (setup.admin, setup.depositor);
    setup.escrow.approve_refund(admin, bounty_id, 500, depositor, RefundMode::Partial).unwrap();
    setup.refund(bounty_id).unwrap();
    let again = setup.escrow.lock_funds(depositor, depositor, bounty_id, 1000, deadline);
    assert_eq!(again.map(|o| o.value), Err(Error::AlreadyExists));
}

#[test]
fn test_partially_refunded_to_released_fails() {
    let mut setup = TestSetup::new();
    let bounty_id = 1;
    let deadline = setup.now + 100;
    setup.lock(bounty_id, 1000, deadline);
    let (admin, depositor, contributor) = (setup.admin, setup.depositor, setup.contributor);
    setup.escrow.approve_refund(admin, bounty_id, 500, depositor, RefundMode::Partial).unwrap();
    setup.refund(bounty_id).unwrap();
    assert_eq!(setup.release(bounty_id, contributor), Err(Error::FundsNotLocked));
}

#[test]
fn partially_refunded_entry_refuses_partial_release_and_new_approval() {
    let mut setup = TestSetup::new();
    let deadline = setup.now + 100;
    setup.lock(1, 1000, deadline);
    let (admin, depositor, contributor) = (setup.admin, setup.depositor, setup.contributor);
    setup.escrow.approve_refund(admin, 1, 500, depositor, RefundMode::Partial).unwrap();
    setup.refund(1).unwrap();
    assert_eq!(
        setup.escrow.partial_release(admin, 1, contributor, 100).map(|o| o.value),
        Err(Error::FundsNotLocked)
    );
    assert_eq!(
        setup.escrow.approve_refund(admin, 1, 100, depositor, RefundMode::Partial),
        Err(Error::FundsNotLocked)
    );
    assert_eq!(setup.refund(1), Err(Error::DeadlineNotPassed));
}

#[test]
fn approved_full_refund_before_deadline_returns_everything() {
    let mut setup = TestSetup::new();
    let deadline = setup.now + 100;
    setup.lock(1, 1000, deadline);
    let (admin, other) = (setup.admin, setup.random_user);
    setup.escrow.approve_refund(admin, 1, 1, other, RefundMode::Full).unwrap();
    setup.refund(1).unwrap();
    assert_eq!(setup.status(1), EscrowStatus::Refunded);
    assert_eq!(setup.bank.balance(&other), 1000);
    let stats = setup.escrow.get_aggregate_stats();
    assert_eq!(stats.total_refunded, 1000);
    assert_eq!(stats.count_refunded, 1);
    assert_eq!(stats.count_locked, 0);
}

#[test]
fn approve_refund_validates_amount_and_caller() {
    let mut setup = TestSetup::new();
    let deadline = setup.now + 100;
    setup.lock(1, 1000, deadline);
    let (admin, depositor) = (setup.admin, setup.depositor);
    assert_eq!(
        setup.escrow.approve_refund(depositor, 1, 500, depositor, RefundMode::Partial),
        Err(Error::Unauthorized)
    );
    assert_eq!(
        setup.escrow.approve_refund(admin, 1, 0, depositor, RefundMode::Partial),
        Err(Error::InvalidAmount)
    );
    assert_eq!(
        setup.escrow.approve_refund(admin, 1, 1001, depositor, RefundMode::Partial),
        Err(Error::InvalidAmount)
    );
    assert_eq!(
        setup.escrow.approve_refund(admin, 2, 10, depositor, RefundMode::Partial),
        Err(Error::NotFound)
    );
}
