use escrow_engine::bounty::{BountyEscrowContract, EscrowStatus};
use escrow_engine::error::Error;
use escrow_engine::types::{Address, Transfer};
use std::collections::HashMap;

struct Bank {
    balances: HashMap<Address, i128>,
}

#[allow(dead_code)]
impl Bank {
    fn new() -> Bank {
        Bank { balances: HashMap::new() }
    }

    fn mint(&mut self, to: &Address, amount: i128) {
        *self.balances.entry(*to).or_insert(0) += amount;
    }

    fn balance(&self, who: &Address) -> i128 {
        *self.balances.get(who).unwrap_or(&0)
    }

    fn covers(&self, transfers: &[Transfer]) -> bool {
        transfers.iter().all(|t| t.amount >= 0 && self.balance(&t.from) >= t.amount)
    }

    fn apply(&mut self, transfers: &[Transfer]) {
        for t in transfers {
            assert!(self.balance(&t.from) >= t.amount, "insufficient balance");
            *self.balances.entry(t.from).or_insert(0) -= t.amount;
            *self.balances.entry(t.to).or_insert(0) += t.amount;
        }
    }
}

fn contract_id() -> Address {
    Address::contract(0, 1)
}

fn token() -> Address {
    Address::contract(0, 2)
}

fn account(n: u128) -> Address {
    Address::account(0, n)
}

#[allow(dead_code)]
struct Setup {
    now: u64,
    admin: Address,
    depositor: Address,
    contributor: Address,
    bank: Bank,
    escrow: BountyEscrowContract,
}

#[allow(dead_code)]
impl Setup {
    fn new() -> Self {
        let admin = account(1);
        let depositor = account(2);
        let contributor = account(3);
        let mut bank = Bank::new();
        let mut escrow = BountyEscrowContract::new(contract_id());
        escrow.init(admin, token()).unwrap();
        bank.mint(&depositor, 10_000_000);
        Setup { now: 0, admin, depositor, contributor, bank, escrow }
    }

    fn lock_for(&mut self, depositor: Address, bounty_id: u64, amount: i128, deadline: u64) {
        let out = self.escrow.lock_funds(depositor, depositor, bounty_id, amount, deadline).unwrap();
        self.bank.apply(&out.transfers);
    }

    fn lock(&mut self, bounty_id: u64, amount: i128, deadline: u64) {
        let depositor = self.depositor;
        self.lock_for(depositor, bounty_id, amount, deadline);
    }

    fn release(&mut self, bounty_id: u64) {
        let (admin, contributor) = (self.admin, self.contributor);
        let out = self.escrow.release_funds(admin, bounty_id, contributor).unwrap();
        self.bank.apply(&out.transfers);
    }

    fn refund(&mut self, bounty_id: u64) {
        let out = self.escrow.refund(bounty_id, self.now).unwrap();
        self.bank.apply(&out.transfers);
    }
}

#[test]
fn test_release_race_first_recipient_wins_order_ab() {
    let mut setup = Setup::new();
    let bounty_id = 9101_u64;
    let amount = 80_000_i128;
    let deadline = setup.now + 1_000;
    let recipient_a = account(11);
    let recipient_b = account(12);
    setup.lock(bounty_id, amount, deadline);
    let admin = setup.admin;
    let out = setup.escrow.release_funds(admin, bounty_id, recipient_a).unwrap();
    setup.bank.apply(&out.transfers);
    let second_release = setup.escrow.release_funds(admin, bounty_id, recipient_b);
    assert_eq!(second_release.map(|o| o.value), Err(Error::FundsNotLocked));
    assert_eq!(setup.bank.balance(&recipient_a), amount);
    assert_eq!(setup.bank.balance(&recipient_b), 0);
    let escrow = setup.escrow.get_escrow_info(bounty_id).unwrap();
    assert_eq!(escrow.status, EscrowStatus::Released);
}

#[test]
fn test_release_race_first_recipient_wins_order_ba() {
    let mut setup = Setup::new();
    let bounty_id = 9102_u64;
    let amount = 80_000_i128;
    let deadline = setup.now + 1_000;
    let recipient_a = account(11);
    let recipient_b = account(12);
    setup.lock(bounty_id, amount, deadline);
    let admin = setup.admin;
    let out = setup.escrow.release_funds(admin, bounty_id, recipient_b).unwrap();
    setup.bank.apply(&out.transfers);
    let second_release = setup.escrow.release_funds(admin, bounty_id, recipient_a);
    assert_eq!(second_release.map(|o| o.value), Err(Error::FundsNotLocked));
    assert_eq!(setup.bank.balance(&recipient_b), amount);
    assert_eq!(setup.bank.balance(&recipient_a), 0);
    let escrow = setup.escrow.get_escrow_info(bounty_id).unwrap();
    assert_eq!(escrow.status, EscrowStatus::Released);
}

#[test]
fn test_authorize_claim_race_last_authorization_wins() {
    let mut setup = Setup::new();
    let bounty_id = 9103_u64;
    let amount = 90_000_i128;
    let deadline = setup.now + 2_000;
    let claimant_a = account(11);
    let claimant_b = account(12);
    let admin = setup.admin;
    setup.escrow.set_claim_window(admin, 500).unwrap();
    setup.lock(bounty_id, amount, deadline);

    setup.escrow.authorize_claim(admin, bounty_id, claimant_a, setup.now).unwrap();
    setup.escrow.authorize_claim(admin, bounty_id, claimant_b, setup.now).unwrap();

    let pending = setup.escrow.get_pending_claim(bounty_id).unwrap();
    assert_eq!(pending.recipient, claimant_b);
    assert_eq!(pending.amount, amount);
    assert_eq!(pending.expires_at, 500);

    // The claimant that was overwritten has no claim.
    let stale = setup.escrow.claim(claimant_a, bounty_id, setup.now);
    assert_eq!(stale.map(|o| o.value), Err(Error::Unauthorized));

    let out = setup.escrow.claim(claimant_b, bounty_id, setup.now).unwrap();
    setup.bank.apply(&out.transfers);

    assert_eq!(setup.bank.balance(&claimant_a), 0);
    assert_eq!(setup.bank.balance(&claimant_b), amount);
    assert_eq!(setup.bank.balance(&contract_id()), 0);

    let second_claim = setup.escrow.claim(claimant_b, bounty_id, setup.now);
    assert_eq!(second_claim.map(|o| o.value), Err(Error::FundsNotLocked));
}

#[test]
fn claim_needs_a_pending_claim_in_time() {
    let mut setup = Setup::new();
    let admin = setup.admin;
    let claimant = account(11);
    setup.escrow.set_claim_window(admin, 100).unwrap();
    setup.lock(1, 500, 10_000);
    assert_eq!(setup.escrow.claim(claimant, 1, 0).map(|o| o.value), Err(Error::NotFound));
    assert_eq!(setup.escrow.claim(claimant, 2, 0).map(|o| o.value), Err(Error::NotFound));
    setup.escrow.authorize_claim(admin, 1, claimant, 1000).unwrap();
    assert_eq!(setup.escrow.get_pending_claim(1).unwrap().expires_at, 1100);
    assert_eq!(setup.escrow.claim(claimant, 1, 1101).map(|o| o.value), Err(Error::Unauthorized));
    assert_eq!(
        setup.escrow.authorize_claim(admin, 1, claimant, u64::MAX).map(|o| o.value),
        Err(Error::Overflow)
    );
    assert!(setup.escrow.claim(claimant, 1, 1100).is_ok());
    assert_eq!(setup.escrow.get_escrow_info(1).unwrap().status, EscrowStatus::Released);
    assert_eq!(setup.escrow.get_pending_claim(1), Err(Error::NotFound));
}

#[test]
fn partial_release_voids_what_was_pending() {
    let mut setup = Setup::new();
    let (admin, contributor) = (setup.admin, setup.contributor);
    let claimant = account(11);
    setup.lock(1, 500, 10_000);
    setup.escrow.authorize_claim(admin, 1, claimant, 0).unwrap();
    let out = setup.escrow.partial_release(admin, 1, contributor, 200).unwrap();
    setup.bank.apply(&out.transfers);
    assert_eq!(setup.escrow.get_pending_claim(1), Err(Error::NotFound));
    let info = setup.escrow.get_escrow_info(1).unwrap();
    assert_eq!(info.remaining_amount, 300);
    assert_eq!(info.status, EscrowStatus::Locked);
    assert_eq!(setup.bank.balance(&contributor), 200);
    assert_eq!(
        setup.escrow.partial_release(admin, 1, contributor, 301).map(|o| o.value),
        Err(Error::InsufficientBalance)
    );
    assert_eq!(
        setup.escrow.partial_release(admin, 1, contributor, 0).map(|o| o.value),
        Err(Error::InvalidAmount)
    );
    let stats = setup.escrow.get_aggregate_stats();
    assert_eq!(stats.total_released, 200);
    assert_eq!(stats.total_locked, 300);
    assert_eq!(stats.count_locked, 1);
}
