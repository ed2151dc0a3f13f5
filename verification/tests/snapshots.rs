use escrow_engine::bounty::{
    escrow_is_well_formed, BountyEscrowContract, Escrow, EscrowStatus, PendingClaim, RefundMode,
};
use escrow_engine::program::{ProgramEscrowContract, ProgramInitItem};
use escrow_engine::types::Address;

fn account(n: u128) -> Address {
    Address::account(0, n)
}

fn busy_program() -> ProgramEscrowContract {
    let key = account(1);
    let mut program = ProgramEscrowContract::new(Address::contract(0, 1));
    program.set_admin(key, key).unwrap();
    program.init_program(String::from("snap"), key, Address::contract(0, 2), 0).unwrap();
    program.lock_program_funds(key, 1_000, 0).unwrap();
    program.single_payout(key, account(2), 100, 1).unwrap();
    program.create_program_release_schedule(key, account(3), 50, 5, 1).unwrap();
    program.create_program_release_schedule(key, account(3), 60, 50, 1).unwrap();
    program.trigger_program_releases(key, 10).unwrap();
    program
        .batch_initialize_programs(&vec![ProgramInitItem {
            program_id: String::from("other"),
            authorized_payout_key: key,
            token_address: Address::contract(0, 2),
        }])
        .unwrap();
    program
}

#[test]
fn program_snapshot_round_trip() {
    let program = busy_program();
    let snapshot = program.snapshot();
    assert!(snapshot.is_well_formed());
    assert_eq!(snapshot.next_schedule_id, 3);
    assert_eq!(snapshot.schedules.len(), 2);
    assert_eq!(snapshot.release_history.len(), 1);
    assert_eq!(snapshot.registry.len(), 1);
    let restored = ProgramEscrowContract::restore(snapshot).unwrap();
    assert_eq!(restored.get_remaining_balance(), program.get_remaining_balance());
    assert_eq!(restored.get_program_release_schedules(), program.get_program_release_schedules());
    assert_eq!(restored.get_program_release_history(), program.get_program_release_history());
    assert_eq!(restored.get_admin(), program.get_admin());
    assert_eq!(restored.get_program_count(), 1);
    assert!(restored.check_invariants());
}

#[test]
fn program_snapshot_that_is_not_a_state_is_refused() {
    let program = busy_program();

    let mut s = program.snapshot();
    s.program.as_mut().unwrap().remaining_balance += 1;
    assert!(!s.is_well_formed());
    assert!(ProgramEscrowContract::restore(s).is_none());

    let mut s = program.snapshot();
    s.next_schedule_id = 7;
    assert!(ProgramEscrowContract::restore(s).is_none());

    let mut s = program.snapshot();
    s.schedules[0].released = false;
    assert!(ProgramEscrowContract::restore(s).is_none());

    let mut s = program.snapshot();
    s.fee_config.payout_fee_rate = 5001;
    assert!(ProgramEscrowContract::restore(s).is_none());

    let mut s = program.snapshot();
    let twin = s.limiter.records[0];
    s.limiter.records.push(twin);
    assert!(!s.limiter.is_well_formed());
    assert!(ProgramEscrowContract::restore(s).is_none());

    let mut s = program.snapshot();
    let twin = s.registry[0].clone();
    s.registry.push(twin);
    assert!(ProgramEscrowContract::restore(s).is_none());

    let mut s = program.snapshot();
    s.program.as_mut().unwrap().payout_history[0].amount = 0;
    assert!(ProgramEscrowContract::restore(s).is_none());

    let mut s = program.snapshot();
    s.program = None;
    assert!(ProgramEscrowContract::restore(s).is_none());

    let mut s = program.snapshot();
    s.checks_disabled = true;
    let restored = ProgramEscrowContract::restore(s).unwrap();
    assert!(restored.invariant_checks_disabled());
}

fn busy_bounty() -> BountyEscrowContract {
    let (admin, depositor) = (account(1), account(2));
    let mut escrow = BountyEscrowContract::new(Address::contract(0, 1));
    escrow.init(admin, Address::contract(0, 2)).unwrap();
    escrow.set_claim_window(admin, 100).unwrap();
    escrow.lock_funds(depositor, depositor, 1, 100, 50).unwrap();
    escrow.lock_funds(depositor, depositor, 2, 200, 50).unwrap();
    escrow.lock_funds(depositor, depositor, 3, 300, 50).unwrap();
    escrow.lock_funds(depositor, depositor, 4, 400, 50).unwrap();
    escrow.release_funds(admin, 1, account(3)).unwrap();
    escrow.approve_refund(admin, 2, 50, depositor, RefundMode::Partial).unwrap();
    escrow.refund(2, 10).unwrap();
    escrow.authorize_claim(admin, 3, account(4), 10).unwrap();
    escrow.update_metadata(admin, 1, 7, 8, String::from("bounty")).unwrap();
    escrow
}

#[test]
fn bounty_snapshot_round_trip() {
    let escrow = busy_bounty();
    let snapshot = escrow.snapshot();
    assert!(snapshot.is_well_formed());
    assert_eq!(snapshot.entries.len(), 4);
    assert_eq!(snapshot.stats.count_partially_refunded, 1);
    assert_eq!(snapshot.stats.total_locked, 150 + 300 + 400);
    let restored = BountyEscrowContract::restore(snapshot).unwrap();
    assert_eq!(restored.get_aggregate_stats(), escrow.get_aggregate_stats());
    assert_eq!(restored.get_escrow_info(3), escrow.get_escrow_info(3));
    assert_eq!(restored.get_pending_claim(3).unwrap().expires_at, 110);
    assert_eq!(restored.get_metadata(1).unwrap().bounty_type, "bounty");
    assert_eq!(restored.get_claim_window(), 100);
    assert!(restored.check_invariants());
}

#[test]
fn bounty_snapshot_that_is_not_a_state_is_refused() {
    let escrow = busy_bounty();

    let mut s = escrow.snapshot();
    s.stats.count_locked += 1;
    assert!(BountyEscrowContract::restore(s).is_none());

    let mut s = escrow.snapshot();
    s.stats.total_released += 1;
    assert!(BountyEscrowContract::restore(s).is_none());

    let mut s = escrow.snapshot();
    s.entries[3].bounty_id = 1;
    assert!(BountyEscrowContract::restore(s).is_none());

    let mut s = escrow.snapshot();
    s.entries[0].escrow.remaining_amount = 1;
    assert!(BountyEscrowContract::restore(s).is_none());

    let mut s = escrow.snapshot();
    s.token = None;
    assert!(BountyEscrowContract::restore(s).is_none());

    let mut s = escrow.snapshot();
    s.entries[3].escrow.status = EscrowStatus::Refunded;
    assert!(BountyEscrowContract::restore(s).is_none());
}

#[test]
fn entries_conform_or_not() {
    let plain = Escrow {
        depositor: account(1),
        amount: 10,
        remaining_amount: 10,
        deadline: 5,
        status: EscrowStatus::Locked,
        pending_claim: None,
        partial_refund_approval: None,
    };
    assert!(escrow_is_well_formed(&plain));
    assert!(!escrow_is_well_formed(&Escrow { remaining_amount: 11, ..plain }));
    assert!(!escrow_is_well_formed(&Escrow { remaining_amount: -1, ..plain }));
    assert!(!escrow_is_well_formed(&Escrow { status: EscrowStatus::Released, ..plain }));
    assert!(escrow_is_well_formed(&Escrow {
        status: EscrowStatus::Released,
        remaining_amount: 0,
        ..plain
    }));
    let claim = PendingClaim { recipient: account(2), amount: 10, expires_at: 9 };
    assert!(escrow_is_well_formed(&Escrow { pending_claim: Some(claim), ..plain }));
    assert!(!escrow_is_well_formed(&Escrow {
        pending_claim: Some(PendingClaim { amount: 9, ..claim }),
        ..plain
    }));
    assert!(!escrow_is_well_formed(&Escrow {
        pending_claim: Some(claim),
        status: EscrowStatus::PartiallyRefunded,
        ..plain
    }));
}
