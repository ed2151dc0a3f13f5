use escrow_engine::bounty::{BountyEscrowContract, EscrowStatus};
use escrow_engine::error::Error;
use escrow_engine::types::{Address, Transfer};
use std::collections::HashMap;

struct Bank {
    balances: HashMap<Address, i128>,
}

#[allow(dead_code)]
impl Bank {
    fn new() -> Bank {
        Bank { balances: HashMap::new() }
    }

    fn mint(&mut self, to: &Address, amount: i128) {
        *self.balances.entry(*to).or_insert(0) += amount;
    }

    fn balance(&self, who: &Address) -> i128 {
        *self.balances.get(who).unwrap_or(&0)
    }

    fn covers(&self, transfers: &[Transfer]) -> bool {
        transfers.iter().all(|t| t.amount >= 0 && self.balance(&t.from) >= t.amount)
    }

    fn apply(&mut self, transfers: &[Transfer]) {
        for t in transfers {
            assert!(self.balance(&t.from) >= t.amount, "insufficient balance");
            *self.balances.entry(t.from).or_insert(0) -= t.amount;
            *self.balances.entry(t.to).or_insert(0) += t.amount;
        }
    }
}

fn contract_id() -> Address {
    Address::contract(0, 1)
}

fn token() -> Address {
    Address::contract(0, 2)
}

fn account(n: u128) -> Address {
    Address::account(0, n)
}

#[allow(dead_code)]
struct Setup {
    now: u64,
    admin: Address,
    depositor: Address,
    contributor: Address,
    bank: Bank,
    escrow: BountyEscrowContract,
}

#[allow(dead_code)]
impl Setup {
    fn new() -> Self {
        let admin = account(1);
        let depositor = account(2);
        let contributor = account(3);
        let mut bank = Bank::new();
        let mut escrow = BountyEscrowContract::new(contract_id());
        escrow.init(admin, token()).unwrap();
        bank.mint(&depositor, 10_000_000);
        Setup { now: 0, admin, depositor, contributor, bank, escrow }
    }

    fn lock_for(&mut self, depositor: Address, bounty_id: u64, amount: i128, deadline: u64) {
        let out = self.escrow.lock_funds(depositor, depositor, bounty_id, amount, deadline).unwrap();
        self.bank.apply(&out.transfers);
    }

    fn lock(&mut self, bounty_id: u64, amount: i128, deadline: u64) {
        let depositor = self.depositor;
        self.lock_for(depositor, bounty_id, amount, deadline);
    }

    fn release(&mut self, bounty_id: u64) {
        let (admin, contributor) = (self.admin, self.contributor);
        let out = self.escrow.release_funds(admin, bounty_id, contributor).unwrap();
        self.bank.apply(&out.transfers);
    }

    fn refund(&mut self, bounty_id: u64) {
        let out = self.escrow.refund(bounty_id, self.now).unwrap();
        self.bank.apply(&out.transfers);
    }
}

#[test]
fn test_query_by_status_locked_returns_only_locked() {
    let mut s = Setup::new();
    let dl = s.now + 1000;
    s.lock(1, 100, dl);
    s.lock(2, 200, dl);
    s.lock(3, 300, dl);
    s.release(2);
    let results = s.escrow.query_escrows_by_status(EscrowStatus::Locked, 0, 10);
    assert_eq!(results.len(), 2);
    for item in results.iter() {
        assert_eq!(item.escrow.status, EscrowStatus::Locked);
    }
}

#[test]
fn test_query_by_status_released_returns_only_released() {
    let mut s = Setup::new();
    let dl = s.now + 1000;
    s.lock(1, 100, dl);
    s.lock(2, 200, dl);
    s.lock(3, 300, dl);
    s.release(1);
    s.release(3);
    let results = s.escrow.query_escrows_by_status(EscrowStatus::Released, 0, 10);
    assert_eq!(results.len(), 2);
    for item in results.iter() {
        assert_eq!(item.escrow.status, EscrowStatus::Released);
    }
}

#[test]
fn test_query_by_status_refunded_returns_only_refunded() {
    let mut s = Setup::new();
    let dl = s.now + 100;
    s.lock(1, 100, dl);
    s.lock(2, 200, dl);
    s.lock(3, 300, dl);
    s.release(1);
    s.now = dl + 1;
    s.refund(2);
    s.refund(3);
    let results = s.escrow.query_escrows_by_status(EscrowStatus::Refunded, 0, 10);
    assert_eq!(results.len(), 2);
    for item in results.iter() {
        assert_eq!(item.escrow.status, EscrowStatus::Refunded);
    }
}

#[test]
fn test_query_by_status_empty_when_no_match() {
    let mut s = Setup::new();
    let dl = s.now + 1000;
    s.lock(1, 100, dl);
    s.lock(2, 200, dl);
    let results = s.escrow.query_escrows_by_status(EscrowStatus::Refunded, 0, 10);
    assert_eq!(results.len(), 0);
}

#[test]
fn test_query_by_status_pagination_offset_and_limit() {
    let mut s = Setup::new();
    let dl = s.now + 1000;
    for i in 1u64..=5 {
        s.lock(i, i as i128 * 100, dl);
    }
    let page1 = s.escrow.query_escrows_by_status(EscrowStatus::Locked, 0, 2);
    assert_eq!(page1.len(), 2);
    let page2 = s.escrow.query_escrows_by_status(EscrowStatus::Locked, 2, 2);
    assert_eq!(page2.len(), 2);
    let page3 = s.escrow.query_escrows_by_status(EscrowStatus::Locked, 4, 2);
    assert_eq!(page3.len(), 1);
    assert_ne!(page1[0].bounty_id, page2[0].bounty_id);
    assert_ne!(page2[0].bounty_id, page3[0].bounty_id);
    let ids: Vec<u64> =
        page1.iter().chain(page2.iter()).chain(page3.iter()).map(|e| e.bounty_id).collect();
    assert_eq!(ids, vec![1, 2, 3, 4, 5]);
}

#[test]
fn test_query_by_amount_range_returns_matching_escrows() {
    let mut s = Setup::new();
    let dl = s.now + 1000;
    s.lock(1, 100, dl);
    s.lock(2, 500, dl);
    s.lock(3, 1000, dl);
    s.lock(4, 5000, dl);
    let results = s.escrow.query_escrows_by_amount(400, 1100, 0, 10);
    assert_eq!(results.len(), 2);
    for item in results.iter() {
        let amt = item.escrow.amount;
        assert!((400..=1100).contains(&amt));
    }
}

#[test]
fn test_query_by_amount_exact_boundaries_included() {
    let mut s = Setup::new();
    let dl = s.now + 1000;
    s.lock(1, 100, dl);
    s.lock(2, 200, dl);
    s.lock(3, 300, dl);
    let results = s.escrow.query_escrows_by_amount(100, 300, 0, 10);
    assert_eq!(results.len(), 3);
}

#[test]
fn test_query_by_amount_no_results_outside_range() {
    let mut s = Setup::new();
    let dl = s.now + 1000;
    s.lock(1, 100, dl);
    s.lock(2, 200, dl);
    let results = s.escrow.query_escrows_by_amount(5000, 9999, 0, 10);
    assert_eq!(results.len(), 0);
}

#[test]
fn test_query_by_deadline_range_filters_correctly() {
    let mut s = Setup::new();
    let base = s.now;
    s.lock(1, 100, base + 100);
    s.lock(2, 200, base + 500);
    s.lock(3, 300, base + 1000);
    s.lock(4, 400, base + 9999);
    let results = s.escrow.query_escrows_by_deadline(base + 400, base + 1500, 0, 10);
    assert_eq!(results.len(), 2);
    for item in results.iter() {
        let dl = item.escrow.deadline;
        assert!(dl >= base + 400 && dl <= base + 1500);
    }
}

#[test]
fn test_query_by_deadline_exact_boundary_included() {
    let mut s = Setup::new();
    let base = s.now;
    s.lock(1, 100, base + 200);
    s.lock(2, 200, base + 500);
    s.lock(3, 300, base + 800);
    let results = s.escrow.query_escrows_by_deadline(base + 200, base + 500, 0, 10);
    assert_eq!(results.len(), 2);
}

#[test]
fn test_query_by_depositor_returns_only_that_depositors_escrows() {
    let mut s = Setup::new();
    let dl = s.now + 1000;
    let depositor2 = account(9);
    s.bank.mint(&depositor2, 10_000);
    s.lock(1, 100, dl);
    s.lock(2, 200, dl);
    s.lock_for(depositor2, 3, 300, dl);
    let r1 = s.escrow.query_escrows_by_depositor(s.depositor, 0, 10);
    assert_eq!(r1.len(), 2);
    for item in r1.iter() {
        assert_eq!(item.escrow.depositor, s.depositor);
    }
    let r2 = s.escrow.query_escrows_by_depositor(depositor2, 0, 10);
    assert_eq!(r2.len(), 1);
    assert_eq!(r2[0].escrow.depositor, depositor2);
}

#[test]
fn test_query_by_depositor_returns_empty_for_unknown_address() {
    let s = Setup::new();
    let unknown = account(77);
    let results = s.escrow.query_escrows_by_depositor(unknown, 0, 10);
    assert_eq!(results.len(), 0);
}

#[test]
fn test_get_escrow_ids_by_status_returns_correct_ids() {
    let mut s = Setup::new();
    let dl = s.now + 1000;
    s.lock(10, 100, dl);
    s.lock(20, 200, dl);
    s.lock(30, 300, dl);
    s.release(20);
    let locked_ids = s.escrow.get_escrow_ids_by_status(EscrowStatus::Locked, 0, 10);
    assert_eq!(locked_ids.len(), 2);
    for id in locked_ids.iter() {
        assert_ne!(*id, 20u64);
    }
    assert_eq!(locked_ids, vec![10, 30]);
    let released_ids = s.escrow.get_escrow_ids_by_status(EscrowStatus::Released, 0, 10);
    assert_eq!(released_ids.len(), 1);
    assert_eq!(released_ids[0], 20u64);
}

#[test]
fn test_get_escrow_ids_by_status_empty_when_no_match() {
    let mut s = Setup::new();
    let dl = s.now + 1000;
    s.lock(1, 100, dl);
    let ids = s.escrow.get_escrow_ids_by_status(EscrowStatus::Released, 0, 10);
    assert_eq!(ids.len(), 0);
}

#[test]
fn test_combined_status_and_amount_filter_via_manual_compose() {
    let mut s = Setup::new();
    let dl = s.now + 1000;
    s.lock(1, 50, dl);
    s.lock(2, 500, dl);
    s.lock(3, 5000, dl);
    s.release(2);
    let locked = s.escrow.query_escrows_by_status(EscrowStatus::Locked, 0, 10);
    let mut large_count = 0u32;
    let mut large_id = 0u64;
    for item in locked.iter() {
        if item.escrow.amount >= 1000 {
            large_count += 1;
            large_id = item.bounty_id;
        }
    }
    assert_eq!(large_count, 1);
    assert_eq!(large_id, 3u64);
}

#[test]
fn test_aggregate_stats_reflects_correct_counts_after_lifecycle() {
    let mut s = Setup::new();
    let dl = s.now + 100;
    s.lock(1, 100, dl);
    s.lock(2, 200, dl);
    s.lock(3, 300, dl);
    s.lock(4, 400, dl);
    s.release(1);
    s.release(2);
    s.now = dl + 1;
    s.refund(3);
    let stats = s.escrow.get_aggregate_stats();
    assert_eq!(stats.count_locked, 1);
    assert_eq!(stats.count_released, 2);
    assert_eq!(stats.count_refunded, 1);
    assert_eq!(stats.total_released, 300);
    assert_eq!(stats.total_refunded, 300);
    assert_eq!(stats.total_locked, 400);
}

#[test]
fn test_query_by_depositor_pagination_offset_skips_correctly() {
    let mut s = Setup::new();
    let dl = s.now + 1000;
    for i in 1u64..=4 {
        s.lock(i, i as i128 * 100, dl);
    }
    let page1 = s.escrow.query_escrows_by_depositor(s.depositor, 0, 2);
    assert_eq!(page1.len(), 2);
    let page2 = s.escrow.query_escrows_by_depositor(s.depositor, 2, 2);
    assert_eq!(page2.len(), 2);
    let page3 = s.escrow.query_escrows_by_depositor(s.depositor, 4, 2);
    assert_eq!(page3.len(), 0);
    assert_ne!(page1[0].bounty_id, page2[0].bounty_id);
    assert_ne!(page1[1].bounty_id, page2[0].bounty_id);
}

#[test]
fn test_query_by_deadline_no_results_outside_range() {
    let mut s = Setup::new();
    let base = s.now;
    s.lock(1, 100, base + 100);
    s.lock(2, 200, base + 200);
    let results = s.escrow.query_escrows_by_deadline(base + 5000, base + 9999, 0, 10);
    assert_eq!(results.len(), 0);
}

#[test]
fn test_get_escrow_ids_by_status_pagination_offset_and_limit() {
    let mut s = Setup::new();
    let dl = s.now + 1000;
    for i in 1u64..=5 {
        s.lock(i, i as i128 * 50, dl);
    }
    let page1 = s.escrow.get_escrow_ids_by_status(EscrowStatus::Locked, 0, 2);
    assert_eq!(page1.len(), 2);
    let page2 = s.escrow.get_escrow_ids_by_status(EscrowStatus::Locked, 2, 2);
    assert_eq!(page2.len(), 2);
    let page3 = s.escrow.get_escrow_ids_by_status(EscrowStatus::Locked, 4, 2);
    assert_eq!(page3.len(), 1);
    assert_ne!(page1[0], page2[0]);
    assert_ne!(page2[0], page3[0]);
}

#[test]
fn test_aggregate_stats_amounts_invariant_sum_equals_total_locked() {
    let mut s = Setup::new();
    let dl = s.now + 100;
    s.lock(1, 100, dl);
    s.lock(2, 200, dl);
    s.lock(3, 300, dl);
    s.lock(4, 400, dl);
    s.release(1);
    s.release(2);
    s.now = dl + 1;
    s.refund(3);
    let stats = s.escrow.get_aggregate_stats();
    assert_eq!(stats.total_released, 300);
    assert_eq!(stats.total_refunded, 300);
    assert_eq!(stats.total_locked, 400);
    let total = stats.total_locked + stats.total_released + stats.total_refunded;
    assert_eq!(total, 1000);
}

#[test]
fn test_metadata_persistence_across_lifecycle() {
    let mut s = Setup::new();
    let bounty_id = 100u64;
    let amount = 5000i128;
    let dl = s.now + 3600;
    s.lock(bounty_id, amount, dl);
    let info = s.escrow.get_escrow_info(bounty_id).unwrap();
    assert_eq!(info.amount, amount);
    assert_eq!(info.status, EscrowStatus::Locked);
}

#[test]
fn test_query_filters_on_large_dataset() {
    let mut s = Setup::new();
    let dl_base = s.now;
    for i in 1u64..=15 {
        let amount = (i as i128) * 1000;
        let deadline = dl_base + (i * 100);
        s.lock(i, amount, deadline);
    }
    let amount_results = s.escrow.query_escrows_by_amount(5000, 10000, 0, 20);
    assert_eq!(amount_results.len(), 6);
    let dl_results = s.escrow.query_escrows_by_deadline(dl_base + 300, dl_base + 700, 0, 20);
    assert_eq!(dl_results.len(), 5);
}

#[test]
fn pages_read_one_after_the_other_are_one_long_page() {
    let mut s = Setup::new();
    for i in 1u64..=11 {
        s.lock(i, 10 + (i as i128 % 3), 1000);
    }
    s.release(4);
    s.release(9);
    let k = 3u32;
    let n = 4u32;
    let mut joined = Vec::new();
    for page in 0..n {
        joined.extend(s.escrow.query_escrows_by_status(EscrowStatus::Locked, page * k, k));
    }
    let whole = s.escrow.query_escrows_by_status(EscrowStatus::Locked, 0, n * k);
    assert_eq!(joined, whole);
    assert_eq!(whole.len(), 9);
    assert_eq!(s.escrow.query_escrows_by_status(EscrowStatus::Locked, 0, 0).len(), 0);
    assert_eq!(s.escrow.query_escrows_by_status(EscrowStatus::Locked, 100, 5).len(), 0);
    assert_eq!(s.escrow.get_escrow_info(12), Err(Error::NotFound));
}
