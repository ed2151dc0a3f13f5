use escrow_engine::bounty::{BountyEscrowContract, EscrowStatus};
use escrow_engine::error::Error;
use escrow_engine::events::Event;
use escrow_engine::seed::next_seed;
use escrow_engine::types::{Address, Transfer};
use std::collections::HashMap;

struct Bank {
    balances: HashMap<Address, i128>,
}

#[allow(dead_code)]
impl Bank {
    fn new() -> Bank {
        Bank { balances: HashMap::new() }
    }

    fn mint(&mut self, to: &Address, amount: i128) {
        *self.balances.entry(*to).or_insert(0) += amount;
    }

    fn balance(&self, who: &Address) -> i128 {
        *self.balances.get(who).unwrap_or(&0)
    }

    fn covers(&self, transfers: &[Transfer]) -> bool {
        transfers.iter().all(|t| t.amount >= 0 && self.balance(&t.from) >= t.amount)
    }

    fn apply(&mut self, transfers: &[Transfer]) {
        for t in transfers {
            assert!(self.balance(&t.from) >= t.amount, "insufficient balance");
            *self.balances.entry(t.from).or_insert(0) -= t.amount;
            *self.balances.entry(t.to).or_insert(0) += t.amount;
        }
    }
}

fn contract_id() -> Address {
    Address::contract(0, 1)
}

fn token() -> Address {
    Address::contract(0, 2)
}

fn account(n: u128) -> Address {
    Address::account(0, n)
}

fn create_test_env() -> (BountyEscrowContract, Bank) {
    (BountyEscrowContract::new(contract_id()), Bank::new())
}

#[test]
fn test_init_event() {
    let (mut client, _bank) = create_test_env();
    let admin = account(1);
    let out = client.init(admin, token()).unwrap();
    assert_eq!(out.events.len(), 1);
    assert_eq!(out.events[0], Event::Initialized { admin, token: token() });
    assert_eq!(out.events[0].topic(), "init");
    assert_eq!(out.events[0].version(), 2);
}

#[test]
fn test_lock_fund() {
    let (mut client, mut bank) = create_test_env();
    let admin = account(1);
    let depositor = account(2);
    let bounty_id = 1;
    let amount = 1000;
    let deadline = 10;
    let mut events = client.init(admin, token()).unwrap().events;
    bank.mint(&depositor, amount);
    let out = client.lock_funds(depositor, depositor, bounty_id, amount, deadline).unwrap();
    bank.apply(&out.transfers);
    events.extend(out.events);
    assert!(events.len() >= 2);
    assert_eq!(events[1], Event::Locked { bounty_id, depositor, amount, deadline });
    assert_eq!(bank.balance(&contract_id()), amount);
}

#[test]
fn test_release_fund() {
    let (mut client, mut bank) = create_test_env();
    let admin = account(1);
    let depositor = account(2);
    let contributor = account(3);
    let bounty_id = 1;
    let amount = 1000;
    let deadline = 10;
    let mut events = client.init(admin, token()).unwrap().events;
    bank.mint(&depositor, amount);
    let out = client.lock_funds(depositor, depositor, bounty_id, amount, deadline).unwrap();
    bank.apply(&out.transfers);
    events.extend(out.events);
    let out = client.release_funds(admin, bounty_id, contributor).unwrap();
    bank.apply(&out.transfers);
    events.extend(out.events);
    assert!(events.len() >= 2);
    assert_eq!(
        events[2],
        Event::Released { bounty_id, recipient: contributor, amount, remaining: 0 }
    );
    assert_eq!(bank.balance(&contributor), amount);
}

#[test]
fn test_init_rejects_reinitialization() {
    let (mut client, _bank) = create_test_env();
    let admin = account(1);
    client.init(admin, token()).unwrap();
    let again = client.init(admin, token());
    assert_eq!(again.map(|o| o.value), Err(Error::AlreadyInitialized));
    assert_eq!(Error::AlreadyInitialized.code(), 1);
}

#[test]
fn test_lock_funds_zero_amount_edge_case() {
    let (mut client, mut bank) = create_test_env();
    let admin = account(1);
    let depositor = account(2);
    let bounty_id = 100;
    let amount = 0;
    let deadline = 0 + 100;
    client.init(admin, token()).unwrap();
    bank.mint(&depositor, 1_000);
    let out = client.lock_funds(depositor, depositor, bounty_id, amount, deadline).unwrap();
    bank.apply(&out.transfers);
    let escrow = client.get_escrow_info(bounty_id).unwrap();
    assert_eq!(escrow.amount, 0);
    assert_eq!(escrow.status, EscrowStatus::Locked);
    assert_eq!(bank.balance(&depositor), 1_000);
}

#[test]
fn test_lock_funds_insufficient_balance_rejected() {
    let (mut client, mut bank) = create_test_env();
    let admin = account(1);
    let depositor = account(2);
    let bounty_id = 101;
    let deadline = 0 + 100;
    client.init(admin, token()).unwrap();
    bank.mint(&depositor, 100);
    // The engine asks for a transfer that the depositor cannot cover; the
    // token service refuses it and the whole call is undone by the host.
    let out = client.lock_funds(depositor, depositor, bounty_id, 1_000, deadline).unwrap();
    assert_eq!(
        out.transfers,
        vec![Transfer { from: depositor, to: contract_id(), amount: 1_000 }]
    );
    assert!(!bank.covers(&out.transfers));
}

#[test]
fn test_refund_allows_exact_deadline_boundary() {
    let (mut client, mut bank) = create_test_env();
    let admin = account(1);
    let depositor = account(2);
    let bounty_id = 102;
    let amount = 700;
    let now = 0u64;
    let deadline = now + 500;
    client.init(admin, token()).unwrap();
    bank.mint(&depositor, amount);
    let out = client.lock_funds(depositor, depositor, bounty_id, amount, deadline).unwrap();
    bank.apply(&out.transfers);
    let out = client.refund(bounty_id, deadline).unwrap();
    bank.apply(&out.transfers);
    let escrow = client.get_escrow_info(bounty_id).unwrap();
    assert_eq!(escrow.status, EscrowStatus::Refunded);
    assert_eq!(bank.balance(&depositor), amount);
}

#[test]
fn test_maximum_lock_and_release_path() {
    let (mut client, mut bank) = create_test_env();
    let admin = account(1);
    let depositor = account(2);
    let contributor = account(3);
    let bounty_id = 103;
    let amount = i64::MAX as i128;
    let deadline = 0 + 1_000;
    client.init(admin, token()).unwrap();
    bank.mint(&depositor, amount);
    let out = client.lock_funds(depositor, depositor, bounty_id, amount, deadline).unwrap();
    bank.apply(&out.transfers);
    assert_eq!(bank.balance(&contract_id()), amount);
    let out = client.release_funds(admin, bounty_id, contributor).unwrap();
    bank.apply(&out.transfers);
    assert_eq!(bank.balance(&contract_id()), 0);
    assert_eq!(bank.balance(&contributor), amount);
}

#[test]
fn test_integration_multi_bounty_lifecycle() {
    let (mut client, mut bank) = create_test_env();
    let admin = account(1);
    let depositor = account(2);
    let contributor = account(3);
    let now = 0u64;
    client.init(admin, token()).unwrap();
    bank.mint(&depositor, 10_000);

    for (id, amount, deadline) in [(201, 3_000, now + 100), (202, 2_000, now + 200), (203, 1_000, now + 300)] {
        let out = client.lock_funds(depositor, depositor, id, amount, deadline).unwrap();
        bank.apply(&out.transfers);
    }
    assert_eq!(bank.balance(&contract_id()), 6_000);

    let out = client.release_funds(admin, 201, contributor).unwrap();
    bank.apply(&out.transfers);
    let out = client.refund(202, now + 201).unwrap();
    bank.apply(&out.transfers);
    assert_eq!(bank.balance(&contract_id()), 1_000);

    assert_eq!(client.get_escrow_info(201).unwrap().status, EscrowStatus::Released);
    assert_eq!(client.get_escrow_info(202).unwrap().status, EscrowStatus::Refunded);
    assert_eq!(client.get_escrow_info(203).unwrap().status, EscrowStatus::Locked);
    assert_eq!(bank.balance(&contributor), 3_000);
}

#[test]
fn test_property_fuzz_lock_release_refund_invariants() {
    let (mut client, mut bank) = create_test_env();
    let admin = account(1);
    let depositor = account(2);
    let contributor = account(3);
    let start = 0u64;
    client.init(admin, token()).unwrap();

    let mut seed = 7_u64;
    let mut fuzz_cases: [(u64, i128, u64); 40] = [(0, 0, 0); 40];
    let mut total_locked = 0_i128;
    for i in 0..40_u64 {
        let amount = (next_seed(&mut seed) % 900 + 100) as i128;
        let deadline = start + (next_seed(&mut seed) % 500 + 10);
        fuzz_cases[i as usize] = (2_000 + i, amount, deadline);
        total_locked += amount;
    }
    bank.mint(&depositor, total_locked);

    for (id, amount, deadline) in fuzz_cases.iter() {
        let out = client.lock_funds(depositor, depositor, *id, *amount, *deadline).unwrap();
        bank.apply(&out.transfers);
    }

    let mut expected_locked_balance = client.get_balance();
    assert_eq!(expected_locked_balance, total_locked);
    for i in 0..40_u64 {
        let id = 2_000 + i;
        if i % 3 == 0 {
            let info = client.get_escrow_info(id).unwrap();
            let out = client.release_funds(admin, id, contributor).unwrap();
            bank.apply(&out.transfers);
            expected_locked_balance -= info.amount;
        } else if i % 3 == 1 {
            let info = client.get_escrow_info(id).unwrap();
            let out = client.refund(id, info.deadline).unwrap();
            bank.apply(&out.transfers);
            expected_locked_balance -= info.amount;
        }
        assert!(client.check_invariants());
    }

    assert_eq!(client.get_balance(), expected_locked_balance);
    assert_eq!(bank.balance(&contract_id()), expected_locked_balance);
    let stats = client.get_aggregate_stats();
    assert_eq!(
        stats.total_locked + stats.total_released + stats.total_refunded,
        total_locked
    );
    assert_eq!(
        stats.count_locked + stats.count_released + stats.count_refunded
            + stats.count_partially_refunded,
        40
    );
}

#[test]
fn test_stress_high_load_bounty_operations() {
    let (mut client, mut bank) = create_test_env();
    let admin = account(1);
    let depositor = account(2);
    let contributor = account(3);
    let now = 0u64;
    client.init(admin, token()).unwrap();
    bank.mint(&depositor, 1_000_000);

    for i in 0..40_u64 {
        let amount = 100 + (i as i128 % 10);
        let deadline = now + 30 + i;
        let out = client.lock_funds(depositor, depositor, 5_000 + i, amount, deadline).unwrap();
        bank.apply(&out.transfers);
    }
    assert!(client.get_balance() > 0);

    for i in 0..40_u64 {
        let id = 5_000 + i;
        if i % 2 == 0 {
            let out = client.release_funds(admin, id, contributor).unwrap();
            bank.apply(&out.transfers);
        } else {
            let info = client.get_escrow_info(id).unwrap();
            let out = client.refund(id, info.deadline).unwrap();
            bank.apply(&out.transfers);
        }
    }

    assert_eq!(client.get_balance(), 0);
    assert_eq!(bank.balance(&contract_id()), 0);
    assert!(bank.balance(&contributor) > 0);
}

#[test]
fn test_gas_proxy_event_footprint_per_operation_is_constant() {
    let (mut client, mut bank) = create_test_env();
    let admin = account(1);
    let depositor = account(2);
    let contributor = account(3);
    let now = 0u64;
    client.init(admin, token()).unwrap();
    bank.mint(&depositor, 10_000);

    let mut lock_event_growth = 0;
    for offset in 0..20_u64 {
        let id = 8_001 + offset;
        let out = client.lock_funds(depositor, depositor, id, 10, now + 100 + offset).unwrap();
        assert_eq!(out.events.len(), 1);
        lock_event_growth += out.events.len();
    }
    assert!(lock_event_growth > 0);
    let out = client.release_funds(admin, 8_001, contributor).unwrap();
    assert_eq!(out.events.len(), 1);
}

fn initialized() -> (BountyEscrowContract, Address, Address) {
    let (mut client, _bank) = create_test_env();
    let admin = account(1);
    let fee_recipient = account(4);
    client.init(admin, token()).unwrap();
    (client, admin, fee_recipient)
}

#[test]
fn test_update_fee_config_with_zero_lock_fee() {
    let (mut client, admin, fee_recipient) = initialized();
    let result = client.update_fee_config(admin, Some(0), None, Some(fee_recipient), None);
    assert!(result.is_ok());
    let config = client.get_fee_config();
    assert_eq!(config.lock_fee_rate, 0);
    assert_eq!(config.fee_recipient, fee_recipient);
}

#[test]
fn test_update_fee_config_with_zero_release_fee() {
    let (mut client, admin, fee_recipient) = initialized();
    let result = client.update_fee_config(admin, None, Some(0), Some(fee_recipient), None);
    assert!(result.is_ok());
    let config = client.get_fee_config();
    assert_eq!(config.release_fee_rate, 0);
    assert_eq!(config.fee_recipient, fee_recipient);
}

#[test]
fn test_update_fee_config_with_max_lock_fee() {
    let (mut client, admin, fee_recipient) = initialized();
    let result = client.update_fee_config(admin, Some(5000), None, Some(fee_recipient), None);
    assert!(result.is_ok());
    let config = client.get_fee_config();
    assert_eq!(config.lock_fee_rate, 5000);
    assert_eq!(config.fee_recipient, fee_recipient);
}

#[test]
fn test_update_fee_config_with_max_release_fee() {
    let (mut client, admin, fee_recipient) = initialized();
    let result = client.update_fee_config(admin, None, Some(5000), Some(fee_recipient), None);
    assert!(result.is_ok());
    let config = client.get_fee_config();
    assert_eq!(config.release_fee_rate, 5000);
    assert_eq!(config.fee_recipient, fee_recipient);
}

fn assert_rejected(lock: Option<i128>, release: Option<i128>) {
    let (mut client, admin, fee_recipient) = initialized();
    let config_before = client.get_fee_config();
    let result = client.update_fee_config(admin, lock, release, Some(fee_recipient), None);
    assert_eq!(result.map(|o| o.value), Err(Error::InvalidFeeRate));
    let current_config = client.get_fee_config();
    assert_eq!(current_config.lock_fee_rate, config_before.lock_fee_rate);
    assert_eq!(current_config.release_fee_rate, config_before.release_fee_rate);
    assert_eq!(current_config, config_before);
}

#[test]
fn test_update_fee_config_rejects_negative_lock_fee() {
    assert_rejected(Some(-1), None);
}

#[test]
fn test_update_fee_config_rejects_negative_release_fee() {
    assert_rejected(None, Some(-1));
}

#[test]
fn test_update_fee_config_rejects_over_max_lock_fee() {
    assert_rejected(Some(5001), None);
}

#[test]
fn test_update_fee_config_rejects_over_max_release_fee() {
    assert_rejected(None, Some(5001));
}

#[test]
fn test_update_fee_config_rejects_overflow_lock_fee() {
    assert_rejected(Some(i128::MAX), None);
}

#[test]
fn test_update_fee_config_rejects_overflow_release_fee() {
    assert_rejected(None, Some(i128::MAX));
}

#[test]
fn test_update_fee_config_both_rates_zero() {
    let (mut client, admin, fee_recipient) = initialized();
    let result = client.update_fee_config(admin, Some(0), Some(0), Some(fee_recipient), None);
    assert!(result.is_ok());
    let config = client.get_fee_config();
    assert_eq!(config.lock_fee_rate, 0);
    assert_eq!(config.release_fee_rate, 0);
}

#[test]
fn test_update_fee_config_both_rates_at_max() {
    let (mut client, admin, fee_recipient) = initialized();
    let result = client.update_fee_config(admin, Some(5000), Some(5000), Some(fee_recipient), None);
    assert!(result.is_ok());
    let config = client.get_fee_config();
    assert_eq!(config.lock_fee_rate, 5000);
    assert_eq!(config.release_fee_rate, 5000);
}

#[test]
fn test_update_fee_config_valid_intermediate_rates() {
    let (mut client, admin, fee_recipient) = initialized();
    let result = client.update_fee_config(admin, Some(100), Some(250), Some(fee_recipient), None);
    assert!(result.is_ok());
    let config = client.get_fee_config();
    assert_eq!(config.lock_fee_rate, 100);
    assert_eq!(config.release_fee_rate, 250);
}

#[test]
fn test_update_fee_config_partial_updates_preserve_existing_values() {
    let (mut client, admin, fee_recipient_1) = initialized();
    let fee_recipient_2 = account(5);
    client.update_fee_config(admin, Some(100), Some(200), Some(fee_recipient_1), Some(true)).unwrap();
    client.update_fee_config(admin, Some(300), None, None, None).unwrap();

    let config = client.get_fee_config();
    assert_eq!(config.lock_fee_rate, 300);
    assert_eq!(config.release_fee_rate, 200);
    assert_eq!(config.fee_recipient, fee_recipient_1);
    assert_eq!(config.fee_enabled, true);

    client.update_fee_config(admin, None, None, Some(fee_recipient_2), Some(false)).unwrap();
    let config = client.get_fee_config();
    assert_eq!(config.lock_fee_rate, 300);
    assert_eq!(config.release_fee_rate, 200);
    assert_eq!(config.fee_recipient, fee_recipient_2);
    assert_eq!(config.fee_enabled, false);
}

#[test]
fn test_update_fee_config_fails_with_one_invalid_rate_preserves_state() {
    let (mut client, admin, fee_recipient) = initialized();
    client.update_fee_config(admin, Some(100), Some(200), Some(fee_recipient), None).unwrap();
    let config_before = client.get_fee_config();
    let result = client.update_fee_config(admin, Some(300), Some(5001), None, None);
    assert_eq!(result.map(|o| o.value), Err(Error::InvalidFeeRate));
    let config = client.get_fee_config();
    assert_eq!(config.lock_fee_rate, config_before.lock_fee_rate);
    assert_eq!(config.release_fee_rate, config_before.release_fee_rate);
}

#[test]
fn test_update_fee_config_rejects_100_percent_lock_fee() {
    assert_rejected(Some(10_000), None);
}

#[test]
fn test_update_fee_config_rejects_100_percent_release_fee() {
    assert_rejected(None, Some(10_000));
}

#[test]
fn test_update_fee_config_rejects_over_100_percent_lock_fee() {
    assert_rejected(Some(10_001), None);
}

#[test]
fn test_update_fee_config_rejects_over_100_percent_release_fee() {
    assert_rejected(None, Some(10_001));
}
