//! The program escrow engine: one pooled balance with single and batch
//! payouts, scheduled releases, multisig approval and a registry of programs.

use vstd::prelude::*;
use crate::error::{BatchError, Error};
use crate::error_recovery::{
    BreakerView, CircuitBreaker, CircuitBreakerConfig, CircuitBreakerStatus, CircuitState,
};
use crate::events::{
    agrees, agrees_plain, event_views, outcome_of, Event, EventView, Outcome, OutcomeView,
};
use crate::fees::{fee_of, fee_overflow, FeeConfig, FeeUpdate};
use crate::pause::PauseFlags;
use crate::rate_limit::{RateLimitConfig, RateLimiter, RateLimiterView};
use crate::reentrancy_guard::ReentrancyGuard;
use crate::query::{first_index, matching, page_of, select_all, select_page, Criterion};
use crate::types::{Address, Transfer, MAX_BATCH_SIZE};

verus! {

/// One payout that went through.
#[derive(Clone, Copy, Debug, PartialEq, Eq, Structural)]
pub struct PayoutRecord {
    pub recipient: Address,
    pub amount: i128,
    pub timestamp: u64,
}

/// A program: its funds and the log of what was paid out of them.
#[derive(Debug)]
pub struct ProgramData {
    pub program_id: String,
    pub total_funds: i128,
    pub remaining_balance: i128,
    pub authorized_payout_key: Address,
    pub payout_history: Vec<PayoutRecord>,
    pub token_address: Address,
}

/// A program as a value.
pub struct ProgramView {
    pub program_id: Seq<char>,
    pub total_funds: i128,
    pub remaining_balance: i128,
    pub authorized_payout_key: Address,
    pub payout_history: Seq<PayoutRecord>,
    pub token_address: Address,
}

impl View for ProgramData {
    type V = ProgramView;

    open spec fn view(&self) -> ProgramView {
        ProgramView {
            program_id: self.program_id@,
            total_funds: self.total_funds,
            remaining_balance: self.remaining_balance,
            authorized_payout_key: self.authorized_payout_key,
            payout_history: self.payout_history@,
            token_address: self.token_address,
        }
    }
}

impl Clone for ProgramData {
    fn clone(&self) -> (copy: ProgramData)
        ensures
            copy@ == self@,
    {
        ProgramData {
            program_id: self.program_id.clone(),
            total_funds: self.total_funds,
            remaining_balance: self.remaining_balance,
            authorized_payout_key: self.authorized_payout_key,
            payout_history: self.payout_history.clone(),
            token_address: self.token_address,
        }
    }
}

/// A payout that becomes due at `release_timestamp`.
#[derive(Clone, Copy, Debug, PartialEq, Eq, Structural)]
pub struct ProgramReleaseSchedule {
    pub schedule_id: u64,
    pub recipient: Address,
    pub amount: i128,
    pub release_timestamp: u64,
    pub released: bool,
}

/// A scheduled payout that was made.
#[derive(Clone, Copy, Debug, PartialEq, Eq, Structural)]
pub struct ProgramReleaseHistory {
    pub schedule_id: u64,
    pub recipient: Address,
    pub amount: i128,
    pub released_at: u64,
}

/// Totals and counts of one program.
#[derive(Clone, Copy, Debug, PartialEq, Eq, Structural)]
pub struct ProgramAggregateStats {
    pub total_funds: i128,
    pub remaining_balance: i128,
    pub total_paid_out: i128,
    pub payout_count: u64,
    pub scheduled_count: u64,
    pub released_count: u64,
}

/// One program to register in a batch.
#[derive(Debug)]
pub struct ProgramInitItem {
    pub program_id: String,
    pub authorized_payout_key: Address,
    pub token_address: Address,
}

/// A batch item as a value.
pub struct ProgramInitItemView {
    pub program_id: Seq<char>,
    pub authorized_payout_key: Address,
    pub token_address: Address,
}

impl View for ProgramInitItem {
    type V = ProgramInitItemView;

    open spec fn view(&self) -> ProgramInitItemView {
        ProgramInitItemView {
            program_id: self.program_id@,
            authorized_payout_key: self.authorized_payout_key,
            token_address: self.token_address,
        }
    }
}

impl Clone for ProgramInitItem {
    fn clone(&self) -> (copy: ProgramInitItem)
        ensures
            copy@ == self@,
    {
        ProgramInitItem {
            program_id: self.program_id.clone(),
            authorized_payout_key: self.authorized_payout_key,
            token_address: self.token_address,
        }
    }
}

/// When a payout needs approval, and by how many of whom.
#[derive(Debug)]
pub struct MultisigConfig {
    pub threshold_amount: i128,
    pub signers: Vec<Address>,
    pub required_signatures: u32,
}

/// A multisig configuration as a value.
pub struct MultisigView {
    pub threshold_amount: i128,
    pub signers: Seq<Address>,
    pub required_signatures: u32,
}

impl View for MultisigConfig {
    type V = MultisigView;

    open spec fn view(&self) -> MultisigView {
        MultisigView {
            threshold_amount: self.threshold_amount,
            signers: self.signers@,
            required_signatures: self.required_signatures,
        }
    }
}

impl Clone for MultisigConfig {
    fn clone(&self) -> (copy: MultisigConfig)
        ensures
            copy@ == self@,
    {
        MultisigConfig {
            threshold_amount: self.threshold_amount,
            signers: self.signers.clone(),
            required_signatures: self.required_signatures,
        }
    }
}

impl MultisigView {
    /// The configuration of a new program: no payout needs approval short of
    /// the largest amount there is, and nobody is a signer.
    pub open spec fn initial() -> MultisigView {
        MultisigView { threshold_amount: i128::MAX, signers: Seq::empty(), required_signatures: 0 }
    }
}

/// A payout that waits for approvals, with the signers that gave theirs.
#[derive(Debug)]
pub struct PayoutApproval {
    pub program_id: String,
    pub recipient: Address,
    pub amount: i128,
    pub approvals: Vec<Address>,
}

/// A pending payout as a value.
pub struct ApprovalView {
    pub program_id: Seq<char>,
    pub recipient: Address,
    pub amount: i128,
    pub approvals: Seq<Address>,
}

impl View for PayoutApproval {
    type V = ApprovalView;

    open spec fn view(&self) -> ApprovalView {
        ApprovalView {
            program_id: self.program_id@,
            recipient: self.recipient,
            amount: self.amount,
            approvals: self.approvals@,
        }
    }
}

impl Clone for PayoutApproval {
    fn clone(&self) -> (copy: PayoutApproval)
        ensures
            copy@ == self@,
    {
        PayoutApproval {
            program_id: self.program_id.clone(),
            recipient: self.recipient,
            amount: self.amount,
            approvals: self.approvals.clone(),
        }
    }
}

/// The hash that names an executable on the ledger.
#[derive(Clone, Copy, Debug, PartialEq, Eq, Structural)]
pub struct WasmHash {
    pub hi: u128,
    pub lo: u128,
}

/// Whether a requested payout was made or waits for approvals.
#[derive(Clone, Copy, Debug, PartialEq, Eq, Structural)]
pub enum PayoutStatus {
    Executed,
    AwaitingApproval,
}

/// The sum of the amounts of `history`.
pub open spec fn paid_total(history: Seq<PayoutRecord>) -> int
    decreases history.len(),
{
    if history.len() == 0 {
        0
    } else {
        paid_total(history.drop_last()) + history.last().amount
    }
}

/// How many of `schedules` have been released.
pub open spec fn released_count(schedules: Seq<ProgramReleaseSchedule>) -> nat
    decreases schedules.len(),
{
    if schedules.len() == 0 {
        0
    } else {
        released_count(schedules.drop_last()) + if schedules.last().released {
            1nat
        } else {
            0nat
        }
    }
}

/// The engine as a value.
pub struct ProgramState {
    pub contract_address: Address,
    pub guard: ReentrancyGuard,
    pub pause: PauseFlags,
    pub admin: Option<Address>,
    pub program: Option<ProgramView>,
    pub schedules: Seq<ProgramReleaseSchedule>,
    pub release_history: Seq<ProgramReleaseHistory>,
    pub next_schedule_id: u64,
    pub registry: Seq<ProgramView>,
    pub fee_config: FeeConfig,
    pub multisig: MultisigView,
    pub approvals: Seq<ApprovalView>,
    pub limiter: RateLimiterView,
    pub breaker: BreakerView,
    pub wasm_hash: WasmHash,
    pub checks_disabled: bool,
}

/// The program escrow engine.
pub struct ProgramEscrowContract {
    contract_address: Address,
    guard: ReentrancyGuard,
    pause: PauseFlags,
    admin: Option<Address>,
    program: Option<ProgramData>,
    schedules: Vec<ProgramReleaseSchedule>,
    release_history: Vec<ProgramReleaseHistory>,
    next_schedule_id: u64,
    registry: Vec<ProgramData>,
    fee_config: FeeConfig,
    multisig: MultisigConfig,
    approvals: Vec<PayoutApproval>,
    limiter: RateLimiter,
    breaker: CircuitBreaker,
    wasm_hash: WasmHash,
    checks_disabled: bool,
}

/// The views of `programs`, in their order.
pub open spec fn program_views(programs: Seq<ProgramData>) -> Seq<ProgramView> {
    programs.map_values(|p: ProgramData| p@)
}

/// The views of `approvals`, in their order.
pub open spec fn approval_views(approvals: Seq<PayoutApproval>) -> Seq<ApprovalView> {
    approvals.map_values(|a: PayoutApproval| a@)
}

impl View for ProgramEscrowContract {
    type V = ProgramState;

    closed spec fn view(&self) -> ProgramState {
        ProgramState {
            contract_address: self.contract_address,
            guard: self.guard,
            pause: self.pause,
            admin: self.admin,
            program: match self.program {
                Some(p) => Some(p@),
                None => None,
            },
            schedules: self.schedules@,
            release_history: self.release_history@,
            next_schedule_id: self.next_schedule_id,
            registry: program_views(self.registry@),
            fee_config: self.fee_config,
            multisig: self.multisig@,
            approvals: approval_views(self.approvals@),
            limiter: self.limiter@,
            breaker: self.breaker@,
            wasm_hash: self.wasm_hash,
            checks_disabled: self.checks_disabled,
        }
    }
}

impl ProgramView {
    /// A program without funds and without payouts.
    pub open spec fn empty(program_id: Seq<char>, key: Address, token: Address) -> ProgramView {
        ProgramView {
            program_id,
            total_funds: 0,
            remaining_balance: 0,
            authorized_payout_key: key,
            payout_history: Seq::empty(),
            token_address: token,
        }
    }

    /// The balance lies between 0 and the funds, what is missing from the
    /// funds is what the logged payouts add up to, and every logged payout
    /// is positive.
    pub open spec fn wf(self) -> bool {
        &&& 0 <= self.remaining_balance <= self.total_funds
        &&& paid_total(self.payout_history) == self.total_funds - self.remaining_balance
        &&& forall|i: int|
            0 <= i < self.payout_history.len() ==> (#[trigger] self.payout_history[i]).amount > 0
    }
}

impl ProgramState {
    /// The engine at `contract_address` before anything has happened.
    pub open spec fn initial(contract_address: Address) -> ProgramState {
        ProgramState {
            contract_address,
            guard: ReentrancyGuard { entered: false },
            pause: PauseFlags { lock_paused: false, release_paused: false, refund_paused: false },
            admin: None,
            program: None,
            schedules: Seq::empty(),
            release_history: Seq::empty(),
            next_schedule_id: 1,
            registry: Seq::empty(),
            fee_config: FeeConfig {
                lock_fee_rate: 0,
                release_fee_rate: 0,
                payout_fee_rate: 0,
                fee_recipient: contract_address,
                fee_enabled: false,
            },
            multisig: MultisigView::initial(),
            approvals: Seq::empty(),
            limiter: RateLimiterView {
                config: crate::rate_limit::RateLimitConfig::initial(),
                records: Seq::empty(),
            },
            breaker: BreakerView::initial(),
            wasm_hash: WasmHash { hi: 0, lo: 0 },
            checks_disabled: false,
        }
    }

    /// What every reachable state satisfies.
    pub open spec fn wf(self) -> bool {
        &&& self.fee_config.wf()
        &&& self.limiter.wf()
        &&& self.next_schedule_id >= 1
        &&& self.schedules.len() + 1 == self.next_schedule_id
        &&& forall|i: int|
            0 <= i < self.schedules.len() ==> (#[trigger] self.schedules[i]).schedule_id == i + 1
                && self.schedules[i].amount > 0
        &&& released_count(self.schedules) == self.release_history.len()
        &&& match self.program {
            Some(p) => p.wf() && self.release_history.len() <= p.payout_history.len(),
            None => self.schedules.len() == 0 && self.approvals.len() == 0,
        }
        &&& forall|i: int, j: int|
            0 <= i < j < self.registry.len() ==> (#[trigger] self.registry[i]).program_id != (
            #[trigger] self.registry[j]).program_id
        &&& forall|i: int|
            0 <= i < self.registry.len() ==> (#[trigger] self.registry[i]).program_id.len() > 0
        &&& forall|i: int, j: int|
            0 <= i < j < self.approvals.len() ==> (#[trigger] self.approvals[i]).recipient != (
            #[trigger] self.approvals[j]).recipient
        &&& forall|i: int| 0 <= i < self.approvals.len() ==> (#[trigger] self.approvals[i]).amount > 0
    }

    /// Well formed and with the invariant checks switched on: the states in
    /// which the mutators may be called.
    pub open spec fn operable(self) -> bool {
        self.wf() && !self.checks_disabled
    }

    /// The checks in front of every operational call, in their order: the
    /// reentrancy guard, the pause flag of the call, the rate limiter for
    /// `caller`, the circuit breaker. Gives the rate limiter as it is to be
    /// left if the call goes through.
    pub open spec fn stack_check(self, paused: bool, caller: Address, now: u64) -> Result<
        RateLimiterView,
        Error,
    > {
        if self.guard.entered {
            Err(Error::Reentrancy)
        } else if paused {
            Err(Error::Paused)
        } else {
            match self.limiter.check(caller, now) {
                Err(e) => Err(e),
                Ok(limiter) => if self.breaker.allows() {
                    Ok(limiter)
                } else {
                    Err(Error::CircuitOpen)
                },
            }
        }
    }

    /// Setting up the program. The call is counted against
    /// `authorized_payout_key`. It fails with `AlreadyInitialized` if a
    /// program is set up already.
    pub open spec fn init_program(
        self,
        program_id: Seq<char>,
        authorized_payout_key: Address,
        token_address: Address,
        now: u64,
    ) -> Result<(ProgramState, OutcomeView<()>), Error> {
        match self.stack_check(false, authorized_payout_key, now) {
            Err(e) => Err(e),
            Ok(limiter) => if self.program is Some {
                Err(Error::AlreadyInitialized)
            } else {
                Ok(
                    (
                        ProgramState {
                            program: Some(
                                ProgramView::empty(program_id, authorized_payout_key, token_address),
                            ),
                            schedules: Seq::empty(),
                            release_history: Seq::empty(),
                            next_schedule_id: 1,
                            limiter,
                            ..self
                        },
                        outcome_of(
                            (),
                            Seq::empty(),
                            EventView::ProgramInitialized {
                                program_id,
                                authorized_payout_key,
                                token_address,
                                total_funds: 0,
                            },
                        ),
                    ),
                )
            },
        }
    }

    /// Adding `amount` to the program's funds and balance. `caller` must be
    /// the administrator of the engine, the one named by `set_admin`, and
    /// `amount` positive; `Overflow` if the funds would leave the 128-bit
    /// range.
    pub open spec fn lock_program_funds(self, caller: Address, amount: i128, now: u64) -> Result<
        (ProgramState, OutcomeView<()>),
        Error,
    > {
        match self.stack_check(self.pause.lock_paused, caller, now) {
            Err(e) => Err(e),
            Ok(limiter) => match self.program {
                None => Err(Error::NotInitialized),
                Some(p) => if self.admin != Some(caller) {
                    Err(Error::Unauthorized)
                } else if amount <= 0 {
                    Err(Error::InvalidAmount)
                } else if p.total_funds + amount > i128::MAX {
                    Err(Error::Overflow)
                } else {
                    let balance = (p.remaining_balance + amount) as i128;
                    Ok(
                        (
                            ProgramState {
                                program: Some(
                                    ProgramView {
                                        total_funds: (p.total_funds + amount) as i128,
                                        remaining_balance: balance,
                                        ..p
                                    },
                                ),
                                limiter,
                                ..self
                            },
                            outcome_of(
                                (),
                                Seq::empty(),
                                EventView::ProgramFundsLocked {
                                    program_id: p.program_id,
                                    amount,
                                    remaining_balance: balance,
                                },
                            ),
                        ),
                    )
                },
            },
        }
    }
}

impl ProgramEscrowContract {
    /// A new engine that lives at `contract_address`.
    pub fn new(contract_address: Address) -> (c: ProgramEscrowContract)
        ensures
            c@ == ProgramState::initial(contract_address),
            c@.operable(),
    {
        let c = ProgramEscrowContract {
            contract_address,
            guard: ReentrancyGuard::new(),
            pause: PauseFlags::new(),
            admin: None,
            program: None,
            schedules: Vec::new(),
            release_history: Vec::new(),
            next_schedule_id: 1,
            registry: Vec::new(),
            fee_config: FeeConfig::disabled(contract_address),
            multisig: MultisigConfig {
                threshold_amount: i128::MAX,
                signers: Vec::new(),
                required_signatures: 0,
            },
            approvals: Vec::new(),
            limiter: RateLimiter::new(),
            breaker: CircuitBreaker::new(),
            wasm_hash: WasmHash { hi: 0, lo: 0 },
            checks_disabled: false,
        };
        assert(c@.registry =~= Seq::empty());
        assert(c@.approvals =~= Seq::empty());
        c
    }

    /// Runs the checks of `stack_check` without recording anything.
    fn precheck(&self, paused: bool, caller: Address, now: u64) -> (r: Result<(), Error>)
        ensures
            match self@.stack_check(paused, caller, now) {
                Ok(_) => r is Ok,
                Err(e) => r == Err::<(), Error>(e),
            },
    {
        if self.guard.entered {
            return Err(Error::Reentrancy);
        }
        if paused {
            return Err(Error::Paused);
        }
        let rec = self.limiter.get_record(caller);
        match crate::rate_limit::decide(&self.limiter.config, &rec, now) {
            Err(e) => {
                return Err(e);
            },
            Ok(_) => {},
        }
        if self.breaker.check_and_allow().is_err() {
            return Err(Error::CircuitOpen);
        }
        Ok(())
    }

    /// Records the call that `precheck` let through.
    fn count_call(&mut self, caller: Address, now: u64)
        requires
            old(self)@.limiter.check(caller, now) is Ok,
        ensures
            final(self)@ == (ProgramState {
                limiter: old(self)@.limiter.check(caller, now)->Ok_0,
                ..old(self)@
            }),
    {
        let _ = self.limiter.check_and_record(caller, now);
    }

    /// Sets up the program.
    pub fn init_program(
        &mut self,
        program_id: String,
        authorized_payout_key: Address,
        token_address: Address,
        now: u64,
    ) -> (r: Result<Outcome<()>, Error>)
        requires
            old(self)@.operable(),
        ensures
            final(self)@.operable(),
            agrees(
                r,
                old(self)@,
                final(self)@,
                old(self)@.init_program(program_id@, authorized_payout_key, token_address, now),
            ),
    {
        self.precheck(false, authorized_payout_key, now)?;
        if self.program.is_some() {
            return Err(Error::AlreadyInitialized);
        }
        proof {
            crate::rate_limit::lemma_check_keeps_wf(self@.limiter, authorized_payout_key, now);
        }
        self.count_call(authorized_payout_key, now);
        let id: String = program_id.clone();
        self.program = Some(
            ProgramData {
                program_id,
                total_funds: 0,
                remaining_balance: 0,
                authorized_payout_key,
                payout_history: Vec::new(),
                token_address,
            },
        );
        self.schedules = Vec::new();
        self.release_history = Vec::new();
        self.next_schedule_id = 1;
        Ok(
            Outcome::silent(
                (),
                Event::ProgramInitialized {
                    program_id: id,
                    authorized_payout_key,
                    token_address,
                    total_funds: 0,
                },
            ),
        )
    }
}

/// `history` with `more` behind it adds up to the two sums together.
pub proof fn lemma_paid_total_concat(history: Seq<PayoutRecord>, more: Seq<PayoutRecord>)
    ensures
        paid_total(history + more) == paid_total(history) + paid_total(more),
    decreases more.len(),
{
    if more.len() == 0 {
        assert(history + more =~= history);
    } else {
        lemma_paid_total_concat(history, more.drop_last());
        assert((history + more).drop_last() =~= history + more.drop_last());
    }
}

/// One more record adds its amount to the sum.
pub proof fn lemma_paid_total_push(history: Seq<PayoutRecord>, record: PayoutRecord)
    ensures
        paid_total(history.push(record)) == paid_total(history) + record.amount,
{
    assert(history.push(record).drop_last() =~= history);
}

impl ProgramView {
    /// The program after `amount` went to `recipient` at `now`.
    pub open spec fn with_payment(self, recipient: Address, amount: i128, now: u64) -> ProgramView {
        ProgramView {
            remaining_balance: (self.remaining_balance - amount) as i128,
            payout_history: self.payout_history.push(
                PayoutRecord { recipient, amount, timestamp: now },
            ),
            ..self
        }
    }
}

impl ProgramState {
    /// Whether a payout to `recipient` is charged a fee: fees are switched
    /// on, and neither `recipient` nor the fee recipient is the engine itself.
    pub open spec fn fee_applies(self, recipient: Address) -> bool {
        &&& self.fee_config.fee_enabled
        &&& recipient != self.contract_address
        &&& self.fee_config.fee_recipient != self.contract_address
    }

    /// The fee on a payout of `amount` to `recipient`.
    pub open spec fn payout_fee(self, recipient: Address, amount: i128) -> int {
        if self.fee_applies(recipient) {
            fee_of(amount as int, self.fee_config.payout_fee_rate as int)
        } else {
            0
        }
    }

    /// Whether the fee on a payout of `amount` to `recipient` cannot be
    /// computed in 128 bits.
    pub open spec fn fee_overflows(self, recipient: Address, amount: i128) -> bool {
        self.fee_applies(recipient) && amount * self.fee_config.payout_fee_rate > i128::MAX
    }

    /// The transfers that pay `amount` to `recipient`: the fee to the fee
    /// recipient first, if there is one, then the rest to `recipient`.
    pub open spec fn payout_transfers(self, recipient: Address, amount: i128) -> Seq<Transfer> {
        let fee = self.payout_fee(recipient, amount);
        if fee > 0 {
            seq![
                Transfer {
                    from: self.contract_address,
                    to: self.fee_config.fee_recipient,
                    amount: fee as i128,
                },
                Transfer {
                    from: self.contract_address,
                    to: recipient,
                    amount: (amount - fee) as i128,
                },
            ]
        } else {
            seq![Transfer { from: self.contract_address, to: recipient, amount }]
        }
    }

    /// The pending payouts after a request for `amount` to `recipient`: the
    /// request takes the place of an earlier one for the same recipient and
    /// starts without approvals.
    pub open spec fn with_request(self, program_id: Seq<char>, recipient: Address, amount: i128) -> Seq<
        ApprovalView,
    > {
        let i = first_index(self.approvals, |a: ApprovalView| a.recipient == recipient);
        let request = ApprovalView { program_id, recipient, amount, approvals: Seq::empty() };
        if i < self.approvals.len() {
            self.approvals.update(i, request)
        } else {
            self.approvals.push(request)
        }
    }

    /// Paying `amount` to `recipient`. `caller` must be the authorized payout
    /// key, `amount` positive and covered by the balance. An amount at or
    /// above the multisig threshold is not paid: it is put down as a request
    /// that waits for approvals.
    pub open spec fn single_payout(
        self,
        caller: Address,
        recipient: Address,
        amount: i128,
        now: u64,
    ) -> Result<(ProgramState, OutcomeView<PayoutStatus>), Error> {
        match self.stack_check(self.pause.release_paused, caller, now) {
            Err(e) => Err(e),
            Ok(limiter) => match self.program {
                None => Err(Error::NotInitialized),
                Some(p) => if caller != p.authorized_payout_key {
                    Err(Error::Unauthorized)
                } else if amount <= 0 {
                    Err(Error::InvalidAmount)
                } else if amount > p.remaining_balance {
                    Err(Error::InsufficientBalance)
                } else if amount >= self.multisig.threshold_amount {
                    Ok(
                        (
                            ProgramState {
                                approvals: self.with_request(p.program_id, recipient, amount),
                                limiter,
                                ..self
                            },
                            outcome_of(
                                PayoutStatus::AwaitingApproval,
                                Seq::empty(),
                                EventView::PayoutPending { program_id: p.program_id, recipient, amount },
                            ),
                        ),
                    )
                } else if self.fee_overflows(recipient, amount) {
                    Err(Error::Overflow)
                } else {
                    Ok(
                        (
                            ProgramState {
                                program: Some(p.with_payment(recipient, amount, now)),
                                limiter,
                                ..self
                            },
                            outcome_of(
                                PayoutStatus::Executed,
                                self.payout_transfers(recipient, amount),
                                EventView::Payout {
                                    program_id: p.program_id,
                                    recipient,
                                    amount,
                                    remaining_balance: (p.remaining_balance - amount) as i128,
                                },
                            ),
                        ),
                    )
                },
            },
        }
    }

    /// One signer's approval of the pending payout to `recipient`. `signer`
    /// must be a signer of the multisig configuration, else `Unauthorized`;
    /// `NotFound` if nothing is pending for `recipient`. A second approval
    /// by the same signer counts once. With enough approvals the payout is
    /// made and the request is gone.
    pub open spec fn approve_payout(self, signer: Address, recipient: Address, now: u64) -> Result<
        (ProgramState, OutcomeView<PayoutStatus>),
        Error,
    > {
        match self.stack_check(self.pause.release_paused, signer, now) {
            Err(e) => Err(e),
            Ok(limiter) => match self.program {
                None => Err(Error::NotInitialized),
                Some(p) => if !self.multisig.signers.contains(signer) {
                    Err(Error::Unauthorized)
                } else {
                    let i = first_index(self.approvals, |a: ApprovalView| a.recipient == recipient);
                    if i >= self.approvals.len() {
                        Err(Error::NotFound)
                    } else {
                        let request = self.approvals[i];
                        let signed = if request.approvals.contains(signer) {
                            request.approvals
                        } else {
                            request.approvals.push(signer)
                        };
                        if signed.len() >= self.multisig.required_signatures {
                            if request.amount > p.remaining_balance {
                                Err(Error::InsufficientBalance)
                            } else if self.fee_overflows(recipient, request.amount) {
                                Err(Error::Overflow)
                            } else {
                                Ok(
                                    (
                                        ProgramState {
                                            program: Some(
                                                p.with_payment(recipient, request.amount, now),
                                            ),
                                            approvals: self.approvals.remove(i),
                                            limiter,
                                            ..self
                                        },
                                        outcome_of(
                                            PayoutStatus::Executed,
                                            self.payout_transfers(recipient, request.amount),
                                            EventView::Payout {
                                                program_id: p.program_id,
                                                recipient,
                                                amount: request.amount,
                                                remaining_balance: (p.remaining_balance
                                                    - request.amount) as i128,
                                            },
                                        ),
                                    ),
                                )
                            }
                        } else {
                            Ok(
                                (
                                    ProgramState {
                                        approvals: self.approvals.update(
                                            i,
                                            ApprovalView { approvals: signed, ..request },
                                        ),
                                        limiter,
                                        ..self
                                    },
                                    outcome_of(
                                        PayoutStatus::AwaitingApproval,
                                        Seq::empty(),
                                        EventView::PayoutPending {
                                            program_id: p.program_id,
                                            recipient,
                                            amount: request.amount,
                                        },
                                    ),
                                ),
                            )
                        }
                    }
                },
            },
        }
    }
}

/// Whether `who` occurs in `list`.
pub fn contains_address(list: &Vec<Address>, who: Address) -> (b: bool)
    ensures
        b == list@.contains(who),
{
    let mut i: usize = 0;
    while i < list.len()
        invariant
            i <= list.len(),
            forall|j: int| 0 <= j < i ==> list@[j] != who,
        decreases list.len() - i,
    {
        if list[i] == who {
            return true;
        }
        i = i + 1;
    }
    false
}

impl ProgramEscrowContract {
    /// Adds `amount` to the program's funds.
    pub fn lock_program_funds(&mut self, caller: Address, amount: i128, now: u64) -> (r: Result<
        Outcome<()>,
        Error,
    >)
        requires
            old(self)@.operable(),
        ensures
            final(self)@.operable(),
            agrees(r, old(self)@, final(self)@, old(self)@.lock_program_funds(caller, amount, now)),
    {
        self.precheck(self.pause.lock_paused, caller, now)?;
        let by_admin: bool = match self.admin {
            Some(a) => a == caller,
            None => false,
        };
        let balance: i128 = match &self.program {
            None => {
                return Err(Error::NotInitialized);
            },
            Some(p) => {
                if !by_admin {
                    return Err(Error::Unauthorized);
                }
                if amount <= 0 {
                    return Err(Error::InvalidAmount);
                }
                if p.total_funds > i128::MAX - amount {
                    return Err(Error::Overflow);
                }
                p.remaining_balance + amount
            },
        };
        proof {
            crate::rate_limit::lemma_check_keeps_wf(self@.limiter, caller, now);
        }
        self.count_call(caller, now);
        match &mut self.program {
            Some(p) => {
                p.total_funds = p.total_funds + amount;
                p.remaining_balance = balance;
            },
            None => {},
        }
        let id: String = self.program_id_copy();
        Ok(
            Outcome::silent(
                (),
                Event::ProgramFundsLocked { program_id: id, amount, remaining_balance: balance },
            ),
        )
    }

    /// Puts the transfers of one payout behind those in `out`.
    fn push_payout_transfers(&self, recipient: Address, amount: i128, out: &mut Vec<Transfer>) -> (r:
        Result<(), Error>)
        requires
            self@.fee_config.wf(),
            amount > 0,
        ensures
            self@.fee_overflows(recipient, amount) ==> r == Err::<(), Error>(Error::Overflow)
                && final(out)@ == old(out)@,
            !self@.fee_overflows(recipient, amount) ==> r is Ok && final(out)@ == old(out)@
                + self@.payout_transfers(recipient, amount),
    {
        let charged: bool = self.fee_config.fee_enabled && recipient != self.contract_address
            && self.fee_config.fee_recipient != self.contract_address;
        let mut fee: i128 = 0;
        if charged {
            assert(amount * self.fee_config.payout_fee_rate >= 0) by (nonlinear_arith)
                requires
                    amount > 0,
                    self.fee_config.payout_fee_rate >= 0,
            ;
            fee = crate::fees::calculate_fee(amount, self.fee_config.payout_fee_rate)?;
            proof {
                crate::fees::lemma_fee_at_most_half(
                    amount as int,
                    self.fee_config.payout_fee_rate as int,
                );
            }
        }
        if fee > 0 {
            out.push(
                Transfer {
                    from: self.contract_address,
                    to: self.fee_config.fee_recipient,
                    amount: fee,
                },
            );
            out.push(Transfer { from: self.contract_address, to: recipient, amount: amount - fee });
        } else {
            out.push(Transfer { from: self.contract_address, to: recipient, amount });
        }
        assert(final(out)@ =~= old(out)@ + self@.payout_transfers(recipient, amount));
        Ok(())
    }

    fn find_request(&self, recipient: Address) -> (i: usize)
        ensures
            i == first_index(self@.approvals, |a: ApprovalView| a.recipient == recipient),
            i <= self.approvals.len(),
            self.approvals.len() == self@.approvals.len(),
    {
        let mut i: usize = 0;
        let ghost pred = |a: ApprovalView| a.recipient == recipient;
        while i < self.approvals.len()
            invariant
                i <= self.approvals.len(),
                pred == (|a: ApprovalView| a.recipient == recipient),
                self@.approvals == approval_views(self.approvals@),
                forall|j: int| 0 <= j < i ==> !pred(self@.approvals[j]),
            decreases self.approvals.len() - i,
        {
            assert(self@.approvals[i as int] == self.approvals@[i as int]@);
            if self.approvals[i].recipient == recipient {
                proof {
                    crate::query::lemma_first_index_is(self@.approvals, pred, i as int);
                }
                return i;
            }
            i = i + 1;
        }
        proof {
            crate::query::lemma_first_index_is(self@.approvals, pred, i as int);
        }
        i
    }

    /// Pays `amount` to `recipient`, or puts the payout down as a request if
    /// it needs approval.
    pub fn single_payout(&mut self, caller: Address, recipient: Address, amount: i128, now: u64) -> (r:
        Result<Outcome<PayoutStatus>, Error>)
        requires
            old(self)@.operable(),
        ensures
            final(self)@.operable(),
            agrees(
                r,
                old(self)@,
                final(self)@,
                old(self)@.single_payout(caller, recipient, amount, now),
            ),
    {
        self.precheck(self.pause.release_paused, caller, now)?;
        let program_id: String = match &self.program {
            None => {
                return Err(Error::NotInitialized);
            },
            Some(p) => {
                if caller != p.authorized_payout_key {
                    return Err(Error::Unauthorized);
                }
                if amount <= 0 {
                    return Err(Error::InvalidAmount);
                }
                if amount > p.remaining_balance {
                    return Err(Error::InsufficientBalance);
                }
                p.program_id.clone()
            },
        };
        proof {
            crate::rate_limit::lemma_check_keeps_wf(self@.limiter, caller, now);
        }
        let id: String = program_id.clone();
        if amount >= self.multisig.threshold_amount {
            let i: usize = self.find_request(recipient);
            let request = PayoutApproval { program_id, recipient, amount, approvals: Vec::new() };
            let ghost before = self@;
            proof {
                crate::query::lemma_first_index(
                    before.approvals,
                    |a: ApprovalView| a.recipient == recipient,
                );
            }
            if i < self.approvals.len() {
                self.approvals.set(i, request);
                assert(approval_views(self.approvals@) =~= before.approvals.update(i as int, request@));
            } else {
                self.approvals.push(request);
                assert(approval_views(self.approvals@) =~= before.approvals.push(request@));
            }
            assert(self@.approvals == before.with_request(program_id@, recipient, amount));
            self.count_call(caller, now);
            return Ok(
                Outcome::silent(
                    PayoutStatus::AwaitingApproval,
                    Event::PayoutPending { program_id: id, recipient, amount },
                ),
            );
        }
        let mut transfers: Vec<Transfer> = Vec::new();
        self.push_payout_transfers(recipient, amount, &mut transfers)?;
        assert(transfers@ =~= self@.payout_transfers(recipient, amount));
        self.count_call(caller, now);
        let remaining: i128 = self.pay(recipient, amount, now);
        Ok(
            Outcome::with(
                PayoutStatus::Executed,
                transfers,
                Event::Payout { program_id: id, recipient, amount, remaining_balance: remaining },
            ),
        )
    }

    /// A copy of the program's identifier.
    fn program_id_copy(&self) -> (id: String)
        requires
            self@.program is Some,
        ensures
            id@ == self@.program->0.program_id,
    {
        match &self.program {
            Some(p) => p.program_id.clone(),
            None => String::new(),
        }
    }

    /// Takes `amount` off the balance and logs the payout; gives the balance
    /// that is left.
    fn pay(&mut self, recipient: Address, amount: i128, now: u64) -> (remaining: i128)
        requires
            old(self)@.program is Some,
            old(self)@.program->0.wf(),
            0 < amount <= old(self)@.program->0.remaining_balance,
        ensures
            final(self)@ == (ProgramState {
                program: Some(old(self)@.program->0.with_payment(recipient, amount, now)),
                ..old(self)@
            }),
            final(self)@.program->0.wf(),
            remaining == old(self)@.program->0.remaining_balance - amount,
    {
        proof {
            lemma_paid_total_push(
                self@.program->0.payout_history,
                PayoutRecord { recipient, amount, timestamp: now },
            );
        }
        match &mut self.program {
            Some(p) => {
                p.remaining_balance = p.remaining_balance - amount;
                p.payout_history.push(PayoutRecord { recipient, amount, timestamp: now });
                p.remaining_balance
            },
            None => 0,
        }
    }
}

/// The event that tells of the breaker's move from `from` to `to`; nothing
/// if it did not move.
pub open spec fn circuit_events(from: CircuitState, to: CircuitState) -> Seq<EventView> {
    if from == to {
        Seq::empty()
    } else {
        seq![EventView::CircuitChanged { from, to }]
    }
}

fn circuit_outcome(from: CircuitState, to: CircuitState) -> (o: Outcome<()>)
    ensures
        o@ == (OutcomeView { value: (), transfers: Seq::empty(), events: circuit_events(from, to) }),
{
    if from == to {
        Outcome::quiet(())
    } else {
        Outcome::silent((), Event::CircuitChanged { from, to })
    }
}

impl ProgramState {
    /// The checks in front of an administrative call: the reentrancy guard,
    /// then `caller` against the administrator. While no administrator is
    /// set nobody passes.
    pub open spec fn admin_gate(self, caller: Address) -> Result<(), Error> {
        if self.guard.entered {
            Err(Error::Reentrancy)
        } else if self.admin != Some(caller) {
            Err(Error::Unauthorized)
        } else {
            Ok(())
        }
    }

    /// Naming the administrator. While there is none anybody may do so;
    /// afterwards only the administrator in office.
    pub open spec fn set_admin(self, caller: Address, new_admin: Address) -> Result<
        ProgramState,
        Error,
    > {
        if self.guard.entered {
            Err(Error::Reentrancy)
        } else if self.admin is Some && self.admin != Some(caller) {
            Err(Error::Unauthorized)
        } else {
            Ok(ProgramState { admin: Some(new_admin), ..self })
        }
    }

    /// Replacing the limits of the rate limiter.
    pub open spec fn update_rate_limit_config(self, caller: Address, config: RateLimitConfig) -> Result<
        ProgramState,
        Error,
    > {
        match self.admin_gate(caller) {
            Err(e) => Err(e),
            Ok(_) => Ok(ProgramState { limiter: self.limiter.with_config(config), ..self }),
        }
    }

    /// Putting `address` on the whitelist of the rate limiter or taking it off.
    pub open spec fn set_whitelist(self, caller: Address, address: Address, whitelisted: bool) -> Result<
        ProgramState,
        Error,
    > {
        match self.admin_gate(caller) {
            Err(e) => Err(e),
            Ok(_) => Ok(
                ProgramState { limiter: self.limiter.with_whitelist(address, whitelisted), ..self },
            ),
        }
    }

    /// Setting the pause flags that are given.
    pub open spec fn set_paused(
        self,
        caller: Address,
        lock: Option<bool>,
        release: Option<bool>,
        refund: Option<bool>,
    ) -> Result<(ProgramState, OutcomeView<()>), Error> {
        match self.admin_gate(caller) {
            Err(e) => Err(e),
            Ok(_) => {
                let flags = self.pause.with(lock, release, refund);
                Ok(
                    (
                        ProgramState { pause: flags, ..self },
                        outcome_of((), Seq::empty(), EventView::PauseSet { flags }),
                    ),
                )
            },
        }
    }

    /// Changing the fee configuration: every rate that `change` names must
    /// lie within bounds, else `InvalidFeeRate`.
    pub open spec fn update_fee_config(self, caller: Address, change: FeeUpdate) -> Result<
        (ProgramState, OutcomeView<()>),
        Error,
    > {
        match self.admin_gate(caller) {
            Err(e) => Err(e),
            Ok(_) => if !change.acceptable() {
                Err(Error::InvalidFeeRate)
            } else {
                let config = self.fee_config.with(change);
                Ok(
                    (
                        ProgramState { fee_config: config, ..self },
                        outcome_of((), Seq::empty(), EventView::FeeUpdated { config }),
                    ),
                )
            },
        }
    }

    /// Replacing the multisig configuration.
    pub open spec fn set_multisig_config(self, caller: Address, config: MultisigView) -> Result<
        ProgramState,
        Error,
    > {
        match self.admin_gate(caller) {
            Err(e) => Err(e),
            Ok(_) => Ok(ProgramState { multisig: config, ..self }),
        }
    }

    /// Naming the administrator of the circuit breaker.
    pub open spec fn set_circuit_admin(self, new_admin: Address, caller: Option<Address>) -> Result<
        ProgramState,
        Error,
    > {
        if self.guard.entered {
            Err(Error::Reentrancy)
        } else if !self.breaker.may_set_admin(caller) {
            Err(Error::Unauthorized)
        } else {
            Ok(ProgramState { breaker: BreakerView { admin: Some(new_admin), ..self.breaker }, ..self })
        }
    }

    /// The reset of the circuit breaker by its administrator.
    pub open spec fn reset_circuit_breaker(self, caller: Address) -> Result<
        (ProgramState, OutcomeView<()>),
        Error,
    > {
        if self.guard.entered {
            Err(Error::Reentrancy)
        } else if !self.breaker.is_admin(caller) {
            Err(Error::Unauthorized)
        } else {
            let breaker = self.breaker.after_reset();
            Ok(
                (
                    ProgramState { breaker, ..self },
                    OutcomeView {
                        value: (),
                        transfers: Seq::empty(),
                        events: circuit_events(self.breaker.state, breaker.state),
                    },
                ),
            )
        }
    }

    /// Replacing the configuration of the circuit breaker, by its
    /// administrator.
    pub open spec fn set_config(self, caller: Address, config: CircuitBreakerConfig) -> Result<
        ProgramState,
        Error,
    > {
        if self.guard.entered {
            Err(Error::Reentrancy)
        } else if !self.breaker.is_admin(caller) {
            Err(Error::Unauthorized)
        } else {
            Ok(ProgramState { breaker: BreakerView { config, ..self.breaker }, ..self })
        }
    }

    /// Replacing the executable: only the hash changes.
    pub open spec fn upgrade(self, caller: Address, new_wasm_hash: WasmHash) -> Result<
        ProgramState,
        Error,
    > {
        match self.admin_gate(caller) {
            Err(e) => Err(e),
            Ok(_) => Ok(ProgramState { wasm_hash: new_wasm_hash, ..self }),
        }
    }
}

impl ProgramEscrowContract {
    fn gate(&self, caller: Address) -> (r: Result<(), Error>)
        ensures
            r == self@.admin_gate(caller),
    {
        if self.guard.entered {
            return Err(Error::Reentrancy);
        }
        match self.admin {
            Some(a) => if a == caller {
                Ok(())
            } else {
                Err(Error::Unauthorized)
            },
            None => Err(Error::Unauthorized),
        }
    }

    /// Names the administrator.
    pub fn set_admin(&mut self, caller: Address, new_admin: Address) -> (r: Result<(), Error>)
        requires
            old(self)@.operable(),
        ensures
            final(self)@.operable(),
            agrees_plain(r, old(self)@, final(self)@, old(self)@.set_admin(caller, new_admin)),
    {
        if self.guard.entered {
            return Err(Error::Reentrancy);
        }
        match self.admin {
            Some(a) => if a != caller {
                return Err(Error::Unauthorized);
            },
            None => {},
        }
        self.admin = Some(new_admin);
        Ok(())
    }

    /// The administrator, if one is set.
    pub fn get_admin(&self) -> (a: Option<Address>)
        ensures
            a == self@.admin,
    {
        self.admin
    }

    /// Replaces the limits of the rate limiter.
    pub fn update_rate_limit_config(
        &mut self,
        caller: Address,
        window_size: u64,
        max_operations: u32,
        cooldown_period: u64,
    ) -> (r: Result<(), Error>)
        requires
            old(self)@.operable(),
        ensures
            final(self)@.operable(),
            agrees_plain(
                r,
                old(self)@,
                final(self)@,
                old(self)@.update_rate_limit_config(
                    caller,
                    RateLimitConfig { window_size, max_operations, cooldown_period },
                ),
            ),
    {
        self.gate(caller)?;
        self.limiter.update_config(RateLimitConfig { window_size, max_operations, cooldown_period });
        Ok(())
    }

    /// The limits of the rate limiter.
    pub fn get_rate_limit_config(&self) -> (c: RateLimitConfig)
        ensures
            c == self@.limiter.config,
    {
        self.limiter.get_config()
    }

    /// Puts `address` on the whitelist of the rate limiter or takes it off.
    pub fn set_whitelist(&mut self, caller: Address, address: Address, whitelisted: bool) -> (r:
        Result<(), Error>)
        requires
            old(self)@.operable(),
        ensures
            final(self)@.operable(),
            agrees_plain(
                r,
                old(self)@,
                final(self)@,
                old(self)@.set_whitelist(caller, address, whitelisted),
            ),
    {
        self.gate(caller)?;
        proof {
            let rec = self@.limiter.record_of(address);
            crate::rate_limit::lemma_with_record(
                self@.limiter,
                crate::rate_limit::CallerRecord {
                    caller: address,
                    window_start: rec.window_start,
                    operations_in_window: rec.operations_in_window,
                    last_op_at: rec.last_op_at,
                    whitelisted,
                },
            );
        }
        self.limiter.set_whitelist(address, whitelisted);
        Ok(())
    }

    /// Whether `address` is on the whitelist of the rate limiter.
    pub fn is_whitelisted(&self, address: Address) -> (b: bool)
        ensures
            b == self@.limiter.record_of(address).whitelisted,
    {
        self.limiter.is_whitelisted(address)
    }

    /// Sets the pause flags that are given and keeps the others.
    pub fn set_paused(
        &mut self,
        caller: Address,
        lock: Option<bool>,
        release: Option<bool>,
        refund: Option<bool>,
    ) -> (r: Result<Outcome<()>, Error>)
        requires
            old(self)@.operable(),
        ensures
            final(self)@.operable(),
            agrees(
                r,
                old(self)@,
                final(self)@,
                old(self)@.set_paused(caller, lock, release, refund),
            ),
    {
        self.gate(caller)?;
        self.pause.apply(lock, release, refund);
        Ok(Outcome::silent((), Event::PauseSet { flags: self.pause }))
    }

    /// The pause flags.
    pub fn get_pause_flags(&self) -> (f: PauseFlags)
        ensures
            f == self@.pause,
    {
        self.pause
    }

    /// Changes the fee configuration, or fails with `InvalidFeeRate` and
    /// leaves it as it is.
    pub fn update_fee_config(&mut self, caller: Address, change: FeeUpdate) -> (r: Result<
        Outcome<()>,
        Error,
    >)
        requires
            old(self)@.operable(),
        ensures
            final(self)@.operable(),
            agrees(r, old(self)@, final(self)@, old(self)@.update_fee_config(caller, change)),
    {
        self.gate(caller)?;
        self.fee_config.update(change)?;
        Ok(Outcome::silent((), Event::FeeUpdated { config: self.fee_config }))
    }

    /// The fee configuration.
    pub fn get_fee_config(&self) -> (c: FeeConfig)
        ensures
            c == self@.fee_config,
    {
        self.fee_config
    }

    /// Replaces the multisig configuration.
    pub fn set_multisig_config(&mut self, caller: Address, config: MultisigConfig) -> (r: Result<
        (),
        Error,
    >)
        requires
            old(self)@.operable(),
        ensures
            final(self)@.operable(),
            agrees_plain(
                r,
                old(self)@,
                final(self)@,
                old(self)@.set_multisig_config(caller, config@),
            ),
    {
        self.gate(caller)?;
        self.multisig = config;
        Ok(())
    }

    /// The multisig configuration.
    pub fn get_multisig_config(&self) -> (c: MultisigConfig)
        ensures
            c@ == self@.multisig,
    {
        self.multisig.clone()
    }

    /// Registers one signer's approval of the pending payout to `recipient`
    /// and makes the payout once the approvals suffice.
    pub fn approve_payout(&mut self, signer: Address, recipient: Address, now: u64) -> (r: Result<
        Outcome<PayoutStatus>,
        Error,
    >)
        requires
            old(self)@.operable(),
        ensures
            final(self)@.operable(),
            agrees(r, old(self)@, final(self)@, old(self)@.approve_payout(signer, recipient, now)),
    {
        self.precheck(self.pause.release_paused, signer, now)?;
        let remaining: i128 = match &self.program {
            None => {
                return Err(Error::NotInitialized);
            },
            Some(p) => p.remaining_balance,
        };
        if !contains_address(&self.multisig.signers, signer) {
            return Err(Error::Unauthorized);
        }
        let i: usize = self.find_request(recipient);
        if i >= self.approvals.len() {
            return Err(Error::NotFound);
        }
        let id: String = self.program_id_copy();
        let ghost before = self@;
        let ghost request = before.approvals[i as int];
        assert(request == self.approvals@[i as int]@);
        let signed_already: bool = contains_address(&self.approvals[i].approvals, signer);
        let amount: i128 = self.approvals[i].amount;
        let given: usize = self.approvals[i].approvals.len();
        let required: u32 = self.multisig.required_signatures;
        let enough: bool = if signed_already {
            given >= required as usize
        } else {
            required == 0 || given >= (required - 1) as usize
        };
        proof {
            crate::rate_limit::lemma_check_keeps_wf(before.limiter, signer, now);
        }
        if enough {
            if amount > remaining {
                return Err(Error::InsufficientBalance);
            }
            let mut transfers: Vec<Transfer> = Vec::new();
            self.push_payout_transfers(recipient, amount, &mut transfers)?;
            assert(transfers@ =~= before.payout_transfers(recipient, amount));
            self.count_call(signer, now);
            self.approvals.remove(i);
            assert(approval_views(self.approvals@) =~= before.approvals.remove(i as int));
            let left: i128 = self.pay(recipient, amount, now);
            Ok(
                Outcome::with(
                    PayoutStatus::Executed,
                    transfers,
                    Event::Payout { program_id: id, recipient, amount, remaining_balance: left },
                ),
            )
        } else {
            self.count_call(signer, now);
            if !signed_already {
                let mut entry: PayoutApproval = self.approvals.remove(i);
                entry.approvals.push(signer);
                self.approvals.insert(i, entry);
            }
            assert(approval_views(self.approvals@) =~= before.approvals.update(
                i as int,
                ApprovalView {
                    approvals: if request.approvals.contains(signer) {
                        request.approvals
                    } else {
                        request.approvals.push(signer)
                    },
                    ..request
                },
            ));
            Ok(
                Outcome::silent(
                    PayoutStatus::AwaitingApproval,
                    Event::PayoutPending { program_id: id, recipient, amount },
                ),
            )
        }
    }

    /// The payouts that wait for approvals, oldest request first.
    pub fn get_pending_approvals(&self) -> (list: Vec<PayoutApproval>)
        ensures
            approval_views(list@) == self@.approvals,
    {
        let mut list: Vec<PayoutApproval> = Vec::new();
        let mut i: usize = 0;
        while i < self.approvals.len()
            invariant
                i <= self.approvals.len(),
                list.len() == i,
                forall|j: int| 0 <= j < i ==> list@[j]@ == self.approvals@[j]@,
            decreases self.approvals.len() - i,
        {
            list.push(self.approvals[i].clone());
            i = i + 1;
        }
        assert(approval_views(list@) =~= approval_views(self.approvals@));
        list
    }

    /// Names the administrator of the circuit breaker.
    pub fn set_circuit_admin(&mut self, new_admin: Address, caller: Option<Address>) -> (r: Result<
        (),
        Error,
    >)
        requires
            old(self)@.operable(),
        ensures
            final(self)@.operable(),
            agrees_plain(
                r,
                old(self)@,
                final(self)@,
                old(self)@.set_circuit_admin(new_admin, caller),
            ),
    {
        if self.guard.entered {
            return Err(Error::Reentrancy);
        }
        self.breaker.set_circuit_admin(new_admin, caller)
    }

    /// The administrator of the circuit breaker, if one is set.
    pub fn get_circuit_admin(&self) -> (a: Option<Address>)
        ensures
            a == self@.breaker.admin,
    {
        self.breaker.get_circuit_admin()
    }

    /// Resets the circuit breaker: an open breaker goes on probation.
    pub fn reset_circuit_breaker(&mut self, caller: Address) -> (r: Result<Outcome<()>, Error>)
        requires
            old(self)@.operable(),
        ensures
            final(self)@.operable(),
            agrees(r, old(self)@, final(self)@, old(self)@.reset_circuit_breaker(caller)),
    {
        if self.guard.entered {
            return Err(Error::Reentrancy);
        }
        let from: CircuitState = self.breaker.get_state();
        self.breaker.reset_circuit_breaker(&caller)?;
        Ok(circuit_outcome(from, self.breaker.get_state()))
    }

    /// Replaces the configuration of the circuit breaker.
    pub fn set_config(&mut self, caller: Address, config: CircuitBreakerConfig) -> (r: Result<
        (),
        Error,
    >)
        requires
            old(self)@.operable(),
        ensures
            final(self)@.operable(),
            agrees_plain(r, old(self)@, final(self)@, old(self)@.set_config(caller, config)),
    {
        if self.guard.entered {
            return Err(Error::Reentrancy);
        }
        match self.breaker.get_circuit_admin() {
            Some(a) => if a != caller {
                return Err(Error::Unauthorized);
            },
            None => {
                return Err(Error::Unauthorized);
            },
        }
        self.breaker.set_config(config);
        Ok(())
    }

    /// A snapshot of the circuit breaker.
    pub fn get_circuit_status(&self) -> (s: CircuitBreakerStatus)
        ensures
            s.state == self@.breaker.state,
            s.failure_count == self@.breaker.failure_count,
            s.success_count == self@.breaker.success_count,
            s.opened_at == self@.breaker.opened_at,
            s.failure_threshold == self@.breaker.config.failure_threshold,
            s.success_threshold == self@.breaker.config.success_threshold,
    {
        self.breaker.get_status()
    }

    /// Tells the circuit breaker that the token service refused a transfer
    /// with `code` at `now`.
    pub fn record_failure(&mut self, code: u32, now: u64) -> (o: Outcome<()>)
        requires
            old(self)@.operable(),
        ensures
            final(self)@.operable(),
            final(self)@ == (ProgramState {
                breaker: old(self)@.breaker.after_failure(code, now),
                ..old(self)@
            }),
            o@ == (OutcomeView {
                value: (),
                transfers: Seq::empty(),
                events: circuit_events(old(self)@.breaker.state, final(self)@.breaker.state),
            }),
    {
        let from: CircuitState = self.breaker.get_state();
        self.breaker.record_failure(code, now);
        circuit_outcome(from, self.breaker.get_state())
    }

    /// Tells the circuit breaker that the token service made a transfer.
    pub fn record_success(&mut self) -> (o: Outcome<()>)
        requires
            old(self)@.operable(),
        ensures
            final(self)@.operable(),
            final(self)@ == (ProgramState {
                breaker: old(self)@.breaker.after_success(),
                ..old(self)@
            }),
            o@ == (OutcomeView {
                value: (),
                transfers: Seq::empty(),
                events: circuit_events(old(self)@.breaker.state, final(self)@.breaker.state),
            }),
    {
        let from: CircuitState = self.breaker.get_state();
        self.breaker.record_success();
        circuit_outcome(from, self.breaker.get_state())
    }

    /// Replaces the executable by the one that `new_wasm_hash` names.
    /// Nothing else changes.
    pub fn upgrade(&mut self, caller: Address, new_wasm_hash: WasmHash) -> (r: Result<(), Error>)
        requires
            old(self)@.operable(),
        ensures
            final(self)@.operable(),
            agrees_plain(r, old(self)@, final(self)@, old(self)@.upgrade(caller, new_wasm_hash)),
    {
        self.gate(caller)?;
        self.wasm_hash = new_wasm_hash;
        Ok(())
    }

    /// The hash of the executable in place.
    pub fn get_wasm_hash(&self) -> (h: WasmHash)
        ensures
            h == self@.wasm_hash,
    {
        self.wasm_hash
    }

    /// Fails with `Reentrancy` exactly when a protected call is in flight.
    pub fn check_not_entered(&self) -> (r: Result<(), Error>)
        ensures
            r == (if self@.guard.entered {
                Err::<(), Error>(Error::Reentrancy)
            } else {
                Ok::<(), Error>(())
            }),
    {
        crate::reentrancy_guard::check_not_entered(&self.guard)
    }

    /// Marks a protected call as in flight.
    pub fn set_entered(&mut self)
        ensures
            final(self)@ == (ProgramState { guard: ReentrancyGuard { entered: true }, ..old(self)@ }),
    {
        crate::reentrancy_guard::set_entered(&mut self.guard);
    }

    /// Marks the protected call as finished.
    pub fn clear_entered(&mut self)
        ensures
            final(self)@ == (ProgramState { guard: ReentrancyGuard { entered: false }, ..old(self)@ }),
    {
        crate::reentrancy_guard::clear_entered(&mut self.guard);
    }

    /// Whether a protected call is in flight.
    pub fn is_entered(&self) -> (b: bool)
        ensures
            b == self@.guard.entered,
    {
        crate::reentrancy_guard::is_entered(&self.guard)
    }

    /// The address at which the engine lives.
    pub fn get_contract_address(&self) -> (a: Address)
        ensures
            a == self@.contract_address,
    {
        self.contract_address
    }
}

/// The sum of `amounts`, found from the first to the last: `InvalidAmount`
/// at the first amount that is not positive, `Overflow` at the first that
/// takes the sum out of the 128-bit range, whichever comes first.
pub open spec fn checked_total(amounts: Seq<i128>) -> Result<int, Error>
    decreases amounts.len(),
{
    if amounts.len() == 0 {
        Ok(0)
    } else {
        match checked_total(amounts.drop_last()) {
            Err(e) => Err(e),
            Ok(t) => if amounts.last() <= 0 {
                Err(Error::InvalidAmount)
            } else if t + amounts.last() > i128::MAX {
                Err(Error::Overflow)
            } else {
                Ok(t + amounts.last())
            },
        }
    }
}

/// Where `checked_total` succeeds every amount is positive and the total
/// lies between 0 and the largest 128-bit value.
pub proof fn lemma_checked_total(amounts: Seq<i128>)
    requires
        checked_total(amounts) is Ok,
    ensures
        forall|i: int| 0 <= i < amounts.len() ==> amounts[i] > 0,
        0 <= checked_total(amounts)->Ok_0 <= i128::MAX,
        amounts.len() > 0 ==> checked_total(amounts)->Ok_0 > 0,
    decreases amounts.len(),
{
    if amounts.len() > 0 {
        lemma_checked_total(amounts.drop_last());
        assert forall|i: int| 0 <= i < amounts.len() implies amounts[i] > 0 by {
            if i < amounts.len() - 1 {
                assert(amounts.drop_last()[i] == amounts[i]);
            }
        }
    }
}

/// The log entries of a batch: one per recipient, in order, all at `now`.
pub open spec fn batch_records(recipients: Seq<Address>, amounts: Seq<i128>, now: u64) -> Seq<
    PayoutRecord,
> {
    Seq::new(
        recipients.len(),
        |i: int| PayoutRecord { recipient: recipients[i], amount: amounts[i], timestamp: now },
    )
}

/// The log entries of a batch add up to the batch's total.
pub proof fn lemma_batch_records_total(recipients: Seq<Address>, amounts: Seq<i128>, now: u64)
    requires
        recipients.len() == amounts.len(),
        checked_total(amounts) is Ok,
    ensures
        paid_total(batch_records(recipients, amounts, now)) == checked_total(amounts)->Ok_0,
    decreases amounts.len(),
{
    if amounts.len() > 0 {
        lemma_batch_records_total(recipients.drop_last(), amounts.drop_last(), now);
        assert(batch_records(recipients, amounts, now).drop_last() =~= batch_records(
            recipients.drop_last(),
            amounts.drop_last(),
            now,
        ));
    }
}

fn sum_amounts(amounts: &Vec<i128>) -> (r: Result<i128, Error>)
    ensures
        match checked_total(amounts@) {
            Ok(t) => r == Ok::<i128, Error>(t as i128) && 0 <= t <= i128::MAX,
            Err(e) => r == Err::<i128, Error>(e),
        },
{
    let mut total: i128 = 0;
    let mut i: usize = 0;
    assert(amounts@.take(0) =~= Seq::<i128>::empty());
    while i < amounts.len()
        invariant
            i <= amounts.len(),
            checked_total(amounts@.take(i as int)) == Ok::<int, Error>(total as int),
            total >= 0,
        decreases amounts.len() - i,
    {
        let amount: i128 = amounts[i];
        proof {
            assert(amounts@.take(i as int + 1).drop_last() =~= amounts@.take(i as int));
            assert(amounts@.take(i as int + 1).last() == amount);
        }
        if amount <= 0 {
            proof {
                lemma_checked_total_prefix(amounts@, i as int + 1);
            }
            return Err(Error::InvalidAmount);
        }
        if total > i128::MAX - amount {
            proof {
                lemma_checked_total_prefix(amounts@, i as int + 1);
            }
            return Err(Error::Overflow);
        }
        total = total + amount;
        i = i + 1;
    }
    assert(amounts@.take(i as int) =~= amounts@);
    Ok(total)
}

/// An error in a prefix of `amounts` is the error of the whole list.
pub proof fn lemma_checked_total_prefix(amounts: Seq<i128>, n: int)
    requires
        0 <= n <= amounts.len(),
        checked_total(amounts.take(n)) is Err,
    ensures
        checked_total(amounts) == checked_total(amounts.take(n)),
    decreases amounts.len() - n,
{
    if n < amounts.len() {
        assert(amounts.take(n + 1).drop_last() =~= amounts.take(n));
        lemma_checked_total_prefix(amounts, n + 1);
    } else {
        assert(amounts.take(n) =~= amounts);
    }
}

impl ProgramState {
    /// The transfers of a batch: those of each payout, in the order of the
    /// batch.
    pub open spec fn batch_transfers(self, recipients: Seq<Address>, amounts: Seq<i128>) -> Seq<
        Transfer,
    >
        decreases recipients.len(),
    {
        if recipients.len() == 0 {
            Seq::empty()
        } else {
            self.batch_transfers(recipients.drop_last(), amounts.drop_last())
                + self.payout_transfers(recipients.last(), amounts.last())
        }
    }

    /// Whether the fee of some payout of the batch cannot be computed.
    pub open spec fn batch_fee_overflows(self, recipients: Seq<Address>, amounts: Seq<i128>) -> bool {
        exists|i: int|
            0 <= i < recipients.len() && #[trigger] self.fee_overflows(recipients[i], amounts[i])
    }

    /// Paying `amounts[i]` to `recipients[i]` for every `i`, all or nothing.
    /// `caller` must be the authorized payout key; the two lists must be of
    /// one length and not empty (`BatchInvalidSize`); every amount must be
    /// positive and the total covered by the balance.
    pub open spec fn batch_payout(
        self,
        caller: Address,
        recipients: Seq<Address>,
        amounts: Seq<i128>,
        now: u64,
    ) -> Result<(ProgramState, OutcomeView<()>), Error> {
        match self.stack_check(self.pause.release_paused, caller, now) {
            Err(e) => Err(e),
            Ok(limiter) => match self.program {
                None => Err(Error::NotInitialized),
                Some(p) => if caller != p.authorized_payout_key {
                    Err(Error::Unauthorized)
                } else if recipients.len() != amounts.len() || recipients.len() == 0 {
                    Err(Error::BatchInvalidSize)
                } else {
                    match checked_total(amounts) {
                        Err(e) => Err(e),
                        Ok(total) => if total > p.remaining_balance {
                            Err(Error::InsufficientBalance)
                        } else if self.batch_fee_overflows(recipients, amounts) {
                            Err(Error::Overflow)
                        } else {
                            let balance = (p.remaining_balance - total) as i128;
                            Ok(
                                (
                                    ProgramState {
                                        program: Some(
                                            ProgramView {
                                                remaining_balance: balance,
                                                payout_history: p.payout_history + batch_records(
                                                    recipients,
                                                    amounts,
                                                    now,
                                                ),
                                                ..p
                                            },
                                        ),
                                        limiter,
                                        ..self
                                    },
                                    outcome_of(
                                        (),
                                        self.batch_transfers(recipients, amounts),
                                        EventView::BatchPayout {
                                            program_id: p.program_id,
                                            recipients: recipients.len() as u64,
                                            total: total as i128,
                                            remaining_balance: balance,
                                        },
                                    ),
                                ),
                            )
                        },
                    }
                },
            },
        }
    }

    /// Scheduling a payout of `amount` to `recipient` for
    /// `release_timestamp`. `caller` must be the administrator of the
    /// engine and `amount` positive. The schedule gets the next identifier.
    pub open spec fn create_program_release_schedule(
        self,
        caller: Address,
        recipient: Address,
        amount: i128,
        release_timestamp: u64,
        now: u64,
    ) -> Result<(ProgramState, OutcomeView<ProgramReleaseSchedule>), Error> {
        match self.stack_check(false, caller, now) {
            Err(e) => Err(e),
            Ok(limiter) => match self.program {
                None => Err(Error::NotInitialized),
                Some(p) => if self.admin != Some(caller) {
                    Err(Error::Unauthorized)
                } else if amount <= 0 {
                    Err(Error::InvalidAmount)
                } else if self.next_schedule_id == u64::MAX {
                    Err(Error::Overflow)
                } else {
                    let schedule = ProgramReleaseSchedule {
                        schedule_id: self.next_schedule_id,
                        recipient,
                        amount,
                        release_timestamp,
                        released: false,
                    };
                    Ok(
                        (
                            ProgramState {
                                schedules: self.schedules.push(schedule),
                                next_schedule_id: (self.next_schedule_id + 1) as u64,
                                limiter,
                                ..self
                            },
                            outcome_of(
                                schedule,
                                Seq::empty(),
                                EventView::ScheduleCreated {
                                    program_id: p.program_id,
                                    schedule_id: schedule.schedule_id,
                                    recipient,
                                    amount,
                                    release_timestamp,
                                },
                            ),
                        ),
                    )
                },
            },
        }
    }
}

/// One more schedule that is not released leaves the count of the released
/// as it is.
pub proof fn lemma_released_count_push(
    schedules: Seq<ProgramReleaseSchedule>,
    schedule: ProgramReleaseSchedule,
)
    ensures
        released_count(schedules.push(schedule)) == released_count(schedules) + if schedule.released {
            1nat
        } else {
            0nat
        },
{
    assert(schedules.push(schedule).drop_last() =~= schedules);
}

impl ProgramEscrowContract {
    /// Pays every recipient of the batch, or nobody.
    #[verifier::loop_isolation(false)]
    pub fn batch_payout(
        &mut self,
        caller: Address,
        recipients: &Vec<Address>,
        amounts: &Vec<i128>,
        now: u64,
    ) -> (r: Result<Outcome<()>, Error>)
        requires
            old(self)@.operable(),
        ensures
            final(self)@.operable(),
            agrees(
                r,
                old(self)@,
                final(self)@,
                old(self)@.batch_payout(caller, recipients@, amounts@, now),
            ),
    {
        self.precheck(self.pause.release_paused, caller, now)?;
        let remaining: i128 = match &self.program {
            None => {
                return Err(Error::NotInitialized);
            },
            Some(p) => {
                if caller != p.authorized_payout_key {
                    return Err(Error::Unauthorized);
                }
                p.remaining_balance
            },
        };
        if recipients.len() != amounts.len() || recipients.len() == 0 {
            return Err(Error::BatchInvalidSize);
        }
        let total: i128 = sum_amounts(amounts)?;
        if total > remaining {
            return Err(Error::InsufficientBalance);
        }
        let ghost before = self@;
        proof {
            lemma_checked_total(amounts@);
        }
        let mut transfers: Vec<Transfer> = Vec::new();
        let mut records: Vec<PayoutRecord> = Vec::new();
        let mut i: usize = 0;
        while i < recipients.len()
            invariant
                i <= recipients.len(),
                recipients.len() == amounts.len(),
                self@ == before,
                before.fee_config.wf(),
                forall|j: int| 0 <= j < amounts.len() ==> amounts@[j] > 0,
                forall|j: int| 0 <= j < i ==> !before.fee_overflows(recipients@[j], amounts@[j]),
                transfers@ == before.batch_transfers(
                    recipients@.take(i as int),
                    amounts@.take(i as int),
                ),
                records@ == batch_records(recipients@.take(i as int), amounts@.take(i as int), now),
            decreases recipients.len() - i,
        {
            proof {
                assert(recipients@.take(i as int + 1).drop_last() =~= recipients@.take(i as int));
                assert(amounts@.take(i as int + 1).drop_last() =~= amounts@.take(i as int));
            }
            match self.push_payout_transfers(recipients[i], amounts[i], &mut transfers) {
                Err(e) => {
                    assert(before.fee_overflows(recipients@[i as int], amounts@[i as int]));
                    return Err(e);
                },
                Ok(_) => {},
            }
            records.push(PayoutRecord { recipient: recipients[i], amount: amounts[i], timestamp: now });
            assert(records@ =~= batch_records(
                recipients@.take(i as int + 1),
                amounts@.take(i as int + 1),
                now,
            ));
            i = i + 1;
        }
        proof {
            assert(recipients@.take(i as int) =~= recipients@);
            assert(amounts@.take(i as int) =~= amounts@);
            crate::rate_limit::lemma_check_keeps_wf(before.limiter, caller, now);
            lemma_batch_records_total(recipients@, amounts@, now);
            lemma_paid_total_concat(before.program->0.payout_history, records@);
        }
        self.count_call(caller, now);
        let balance: i128 = remaining - total;
        match &mut self.program {
            Some(p) => {
                p.remaining_balance = balance;
                crate::query::extend_with(&mut p.payout_history, &records);
            },
            None => {},
        }
        let id: String = self.program_id_copy();
        Ok(
            Outcome::with(
                (),
                transfers,
                Event::BatchPayout {
                    program_id: id,
                    recipients: recipients.len() as u64,
                    total,
                    remaining_balance: balance,
                },
            ),
        )
    }

    /// Schedules a payout.
    pub fn create_program_release_schedule(
        &mut self,
        caller: Address,
        recipient: Address,
        amount: i128,
        release_timestamp: u64,
        now: u64,
    ) -> (r: Result<Outcome<ProgramReleaseSchedule>, Error>)
        requires
            old(self)@.operable(),
        ensures
            final(self)@.operable(),
            agrees(
                r,
                old(self)@,
                final(self)@,
                old(self)@.create_program_release_schedule(
                    caller,
                    recipient,
                    amount,
                    release_timestamp,
                    now,
                ),
            ),
    {
        self.precheck(false, caller, now)?;
        if self.program.is_none() {
            return Err(Error::NotInitialized);
        }
        match self.admin {
            Some(a) => if a != caller {
                return Err(Error::Unauthorized);
            },
            None => {
                return Err(Error::Unauthorized);
            },
        }
        if amount <= 0 {
            return Err(Error::InvalidAmount);
        }
        if self.next_schedule_id == u64::MAX {
            return Err(Error::Overflow);
        }
        let schedule = ProgramReleaseSchedule {
            schedule_id: self.next_schedule_id,
            recipient,
            amount,
            release_timestamp,
            released: false,
        };
        proof {
            crate::rate_limit::lemma_check_keeps_wf(self@.limiter, caller, now);
            lemma_released_count_push(self@.schedules, schedule);
        }
        self.count_call(caller, now);
        self.schedules.push(schedule);
        self.next_schedule_id = self.next_schedule_id + 1;
        let id: String = self.program_id_copy();
        Ok(
            Outcome::silent(
                schedule,
                Event::ScheduleCreated {
                    program_id: id,
                    schedule_id: schedule.schedule_id,
                    recipient,
                    amount,
                    release_timestamp,
                },
            ),
        )
    }
}

/// Whether `schedule` is to be paid at `now`: it has not been and its time
/// has come.
pub open spec fn is_due(schedule: ProgramReleaseSchedule, now: u64) -> bool {
    !schedule.released && now >= schedule.release_timestamp
}

/// What one pass over the schedules pays and leaves behind.
pub struct ReleasePass {
    /// The sum of the amounts paid.
    pub total: int,
    /// The schedules after the pass.
    pub schedules: Seq<ProgramReleaseSchedule>,
    /// The entries for the payout log.
    pub payouts: Seq<PayoutRecord>,
    /// The entries for the release history.
    pub history: Seq<ProgramReleaseHistory>,
    /// The transfers to ask for.
    pub transfers: Seq<Transfer>,
    /// The events to publish.
    pub events: Seq<EventView>,
}

impl ProgramState {
    /// The pass over `schedules` at `now`: every schedule that is due is
    /// paid and marked, in the order of the list, which is the order of the
    /// identifiers.
    pub open spec fn release_pass(self, schedules: Seq<ProgramReleaseSchedule>, now: u64) -> ReleasePass
        decreases schedules.len(),
    {
        if schedules.len() == 0 {
            ReleasePass {
                total: 0,
                schedules: Seq::empty(),
                payouts: Seq::empty(),
                history: Seq::empty(),
                transfers: Seq::empty(),
                events: Seq::empty(),
            }
        } else {
            let before = self.release_pass(schedules.drop_last(), now);
            let s = schedules.last();
            if is_due(s, now) {
                ReleasePass {
                    total: before.total + s.amount,
                    schedules: before.schedules.push(
                        ProgramReleaseSchedule { released: true, ..s },
                    ),
                    payouts: before.payouts.push(
                        PayoutRecord { recipient: s.recipient, amount: s.amount, timestamp: now },
                    ),
                    history: before.history.push(
                        ProgramReleaseHistory {
                            schedule_id: s.schedule_id,
                            recipient: s.recipient,
                            amount: s.amount,
                            released_at: now,
                        },
                    ),
                    transfers: before.transfers + self.payout_transfers(s.recipient, s.amount),
                    events: before.events.push(
                        EventView::ScheduleReleased {
                            program_id: self.program->0.program_id,
                            schedule_id: s.schedule_id,
                            recipient: s.recipient,
                            amount: s.amount,
                            released_at: now,
                        },
                    ),
                }
            } else {
                ReleasePass { schedules: before.schedules.push(s), ..before }
            }
        }
    }

    /// Whether the fee of some due schedule cannot be computed.
    pub open spec fn due_fee_overflows(self, now: u64) -> bool {
        exists|i: int|
            0 <= i < self.schedules.len() && is_due(#[trigger] self.schedules[i], now)
                && self.fee_overflows(self.schedules[i].recipient, self.schedules[i].amount)
    }

    /// Paying all schedules that are due at `now`, all or nothing. `caller`
    /// must be the authorized payout key. `InsufficientBalance` if the
    /// balance does not cover them all. Gives the number of schedules paid.
    pub open spec fn trigger_program_releases(self, caller: Address, now: u64) -> Result<
        (ProgramState, OutcomeView<u64>),
        Error,
    > {
        match self.stack_check(self.pause.release_paused, caller, now) {
            Err(e) => Err(e),
            Ok(limiter) => match self.program {
                None => Err(Error::NotInitialized),
                Some(p) => if caller != p.authorized_payout_key {
                    Err(Error::Unauthorized)
                } else {
                    let pass = self.release_pass(self.schedules, now);
                    if pass.total > p.remaining_balance {
                        Err(Error::InsufficientBalance)
                    } else if self.due_fee_overflows(now) {
                        Err(Error::Overflow)
                    } else {
                        Ok(
                            (
                                ProgramState {
                                    program: Some(
                                        ProgramView {
                                            remaining_balance: (p.remaining_balance
                                                - pass.total) as i128,
                                            payout_history: p.payout_history + pass.payouts,
                                            ..p
                                        },
                                    ),
                                    schedules: pass.schedules,
                                    release_history: self.release_history + pass.history,
                                    limiter,
                                    ..self
                                },
                                OutcomeView {
                                    value: pass.payouts.len() as u64,
                                    transfers: pass.transfers,
                                    events: pass.events,
                                },
                            ),
                        )
                    }
                },
            },
        }
    }

    /// What a pass leaves as it was and how its parts hang together.
    pub proof fn lemma_release_pass(self, schedules: Seq<ProgramReleaseSchedule>, now: u64)
        requires
            forall|i: int| 0 <= i < schedules.len() ==> (#[trigger] schedules[i]).amount > 0,
        ensures
            ({
                let pass = self.release_pass(schedules, now);
                &&& pass.schedules.len() == schedules.len()
                &&& forall|i: int|
                    0 <= i < schedules.len() ==> (#[trigger] pass.schedules[i]).schedule_id
                        == schedules[i].schedule_id && pass.schedules[i].amount == schedules[i].amount
                        && pass.schedules[i].recipient == schedules[i].recipient
                        && pass.schedules[i].release_timestamp == schedules[i].release_timestamp
                        && pass.schedules[i].released == (schedules[i].released || is_due(
                        schedules[i],
                        now,
                    ))
                &&& pass.payouts.len() == pass.history.len()
                &&& pass.payouts.len() == pass.events.len()
                &&& pass.payouts.len() <= schedules.len()
                &&& pass.total >= 0
                &&& forall|i: int| 0 <= i < pass.payouts.len() ==> (#[trigger] pass.payouts[i]).amount > 0
                &&& paid_total(pass.payouts) == pass.total
                &&& released_count(pass.schedules) == released_count(schedules) + pass.history.len()
            }),
        decreases schedules.len(),
    {
        if schedules.len() > 0 {
            let head = schedules.drop_last();
            assert forall|i: int| 0 <= i < head.len() implies (#[trigger] head[i]).amount > 0 by {
                assert(head[i] == schedules[i]);
            }
            self.lemma_release_pass(head, now);
            let before = self.release_pass(head, now);
            let pass = self.release_pass(schedules, now);
            let s = schedules.last();
            assert(s == schedules[schedules.len() - 1]);
            assert(pass.schedules.drop_last() =~= before.schedules);
            assert forall|i: int| 0 <= i < schedules.len() implies (#[trigger] pass.schedules[i]).schedule_id
                == schedules[i].schedule_id && pass.schedules[i].amount == schedules[i].amount
                && pass.schedules[i].recipient == schedules[i].recipient
                && pass.schedules[i].release_timestamp == schedules[i].release_timestamp
                && pass.schedules[i].released == (schedules[i].released || is_due(
                schedules[i],
                now,
            )) by {
                if i < head.len() {
                    assert(pass.schedules[i] == before.schedules[i]);
                    assert(head[i] == schedules[i]);
                }
            }
            if is_due(s, now) {
                assert(pass.payouts.drop_last() =~= before.payouts);
                assert forall|i: int| 0 <= i < pass.payouts.len() implies (
                #[trigger] pass.payouts[i]).amount > 0 by {
                    if i < before.payouts.len() {
                        assert(pass.payouts[i] == before.payouts[i]);
                    }
                }
            }
        }
    }

    /// The total of a pass over a part of the schedules from the start is at
    /// most the total of the pass over all of them.
    pub proof fn lemma_release_pass_grows(
        self,
        schedules: Seq<ProgramReleaseSchedule>,
        n: int,
        now: u64,
    )
        requires
            0 <= n <= schedules.len(),
            forall|i: int| 0 <= i < schedules.len() ==> (#[trigger] schedules[i]).amount > 0,
        ensures
            self.release_pass(schedules.take(n), now).total <= self.release_pass(
                schedules,
                now,
            ).total,
        decreases schedules.len() - n,
    {
        if n < schedules.len() {
            assert(schedules.take(n + 1).drop_last() =~= schedules.take(n));
            assert(schedules.take(n + 1).last() == schedules[n]);
            self.lemma_release_pass_grows(schedules, n + 1, now);
        } else {
            assert(schedules.take(n) =~= schedules);
        }
    }
}

impl ProgramEscrowContract {
    /// Pays all schedules that are due at `now`, or none.
    #[verifier::loop_isolation(false)]
    #[verifier::rlimit(60)]
    pub fn trigger_program_releases(&mut self, caller: Address, now: u64) -> (r: Result<
        Outcome<u64>,
        Error,
    >)
        requires
            old(self)@.operable(),
        ensures
            final(self)@.operable(),
            agrees(r, old(self)@, final(self)@, old(self)@.trigger_program_releases(caller, now)),
    {
        self.precheck(self.pause.release_paused, caller, now)?;
        let remaining: i128 = match &self.program {
            None => {
                return Err(Error::NotInitialized);
            },
            Some(p) => {
                if caller != p.authorized_payout_key {
                    return Err(Error::Unauthorized);
                }
                p.remaining_balance
            },
        };
        let ghost before = self@;
        let ghost all = before.schedules;
        let mut left: i128 = remaining;
        let mut count: u64 = 0;
        let mut marked: Vec<ProgramReleaseSchedule> = Vec::new();
        let mut payouts: Vec<PayoutRecord> = Vec::new();
        let mut history: Vec<ProgramReleaseHistory> = Vec::new();
        let mut transfers: Vec<Transfer> = Vec::new();
        let mut events: Vec<Event> = Vec::new();
        let mut i: usize = 0;
        let mut fee_failed: bool = false;
        assert(all.take(0) =~= Seq::<ProgramReleaseSchedule>::empty());
        while i < self.schedules.len()
            invariant
                i <= self.schedules.len(),
                self@ == before,
                all == self.schedules@,
                count == payouts.len(),
                count <= i,
                0 <= left <= remaining,
                left == remaining - before.release_pass(all.take(i as int), now).total,
                marked@ == before.release_pass(all.take(i as int), now).schedules,
                payouts@ == before.release_pass(all.take(i as int), now).payouts,
                history@ == before.release_pass(all.take(i as int), now).history,
                !fee_failed ==> transfers@ == before.release_pass(all.take(i as int), now).transfers,
                event_views(events@) == before.release_pass(all.take(i as int), now).events,
                fee_failed ==> before.due_fee_overflows(now),
                !fee_failed ==> forall|j: int|
                    0 <= j < i && is_due(#[trigger] all[j], now) ==> !before.fee_overflows(
                        all[j].recipient,
                        all[j].amount,
                    ),
            decreases self.schedules.len() - i,
        {
            let s: ProgramReleaseSchedule = self.schedules[i];
            proof {
                assert(all.take(i as int + 1).drop_last() =~= all.take(i as int));
                assert(all.take(i as int + 1).last() == s);
            }
            if !s.released && now >= s.release_timestamp {
                if s.amount > left {
                    proof {
                        before.lemma_release_pass_grows(all, i as int + 1, now);
                    }
                    return Err(Error::InsufficientBalance);
                }
                left = left - s.amount;
                count = count + 1;
                marked.push(
                    ProgramReleaseSchedule {
                        schedule_id: s.schedule_id,
                        recipient: s.recipient,
                        amount: s.amount,
                        release_timestamp: s.release_timestamp,
                        released: true,
                    },
                );
                payouts.push(PayoutRecord { recipient: s.recipient, amount: s.amount, timestamp: now });
                history.push(
                    ProgramReleaseHistory {
                        schedule_id: s.schedule_id,
                        recipient: s.recipient,
                        amount: s.amount,
                        released_at: now,
                    },
                );
                let id: String = self.program_id_copy();
                let ghost published = event_views(events@);
                events.push(
                    Event::ScheduleReleased {
                        program_id: id,
                        schedule_id: s.schedule_id,
                        recipient: s.recipient,
                        amount: s.amount,
                        released_at: now,
                    },
                );
                assert(event_views(events@) =~= published.push(
                    EventView::ScheduleReleased {
                        program_id: before.program->0.program_id,
                        schedule_id: s.schedule_id,
                        recipient: s.recipient,
                        amount: s.amount,
                        released_at: now,
                    },
                ));
                if !fee_failed {
                    match self.push_payout_transfers(s.recipient, s.amount, &mut transfers) {
                        Err(_) => {
                            assert(is_due(all[i as int], now));
                            fee_failed = true;
                        },
                        Ok(_) => {},
                    }
                }
            } else {
                marked.push(s);
            }
            i = i + 1;
        }
        assert(all.take(i as int) =~= all);
        if fee_failed {
            return Err(Error::Overflow);
        }
        proof {
            crate::rate_limit::lemma_check_keeps_wf(before.limiter, caller, now);
            before.lemma_release_pass(all, now);
            lemma_paid_total_concat(before.program->0.payout_history, payouts@);
        }
        self.count_call(caller, now);
        self.schedules = marked;
        crate::query::extend_with(&mut self.release_history, &history);
        match &mut self.program {
            Some(p) => {
                p.remaining_balance = left;
                crate::query::extend_with(&mut p.payout_history, &payouts);
            },
            None => {},
        }
        Ok(Outcome { value: count, transfers, events })
    }

    /// The program, or `NotInitialized`.
    pub fn get_program_info(&self) -> (r: Result<ProgramData, Error>)
        ensures
            match self@.program {
                Some(p) => r is Ok && r->Ok_0@ == p,
                None => r is Err && r->Err_0 == Error::NotInitialized,
            },
    {
        match &self.program {
            Some(p) => Ok(p.clone()),
            None => Err(Error::NotInitialized),
        }
    }

    /// The balance of the program, or `NotInitialized`.
    pub fn get_remaining_balance(&self) -> (r: Result<i128, Error>)
        ensures
            match self@.program {
                Some(p) => r == Ok::<i128, Error>(p.remaining_balance),
                None => r == Err::<i128, Error>(Error::NotInitialized),
            },
    {
        match &self.program {
            Some(p) => Ok(p.remaining_balance),
            None => Err(Error::NotInitialized),
        }
    }

    /// All schedules, in the order of their identifiers.
    pub fn get_program_release_schedules(&self) -> (list: Vec<ProgramReleaseSchedule>)
        ensures
            list@ == self@.schedules,
    {
        self.schedules.clone()
    }

    /// The scheduled payouts that were made, oldest first.
    pub fn get_program_release_history(&self) -> (list: Vec<ProgramReleaseHistory>)
        ensures
            list@ == self@.release_history,
    {
        self.release_history.clone()
    }

    /// The fee on `amount` at `fee_rate` basis points, or `Overflow` where
    /// the product of the two leaves the 128-bit range.
    pub fn calculate_fee(amount: i128, fee_rate: i128) -> (r: Result<i128, Error>)
        ensures
            fee_overflow(amount as int, fee_rate as int) ==> r == Err::<i128, Error>(
                Error::Overflow,
            ),
            !fee_overflow(amount as int, fee_rate as int) ==> r == Ok::<i128, Error>(
                fee_of(amount as int, fee_rate as int) as i128,
            ),
    {
        crate::fees::calculate_fee(amount, fee_rate)
    }

    /// Totals and counts of the program, or `NotInitialized`.
    pub fn get_program_aggregate_stats(&self) -> (r: Result<ProgramAggregateStats, Error>)
        requires
            self@.wf(),
        ensures
            match self@.program {
                Some(p) => r == Ok::<ProgramAggregateStats, Error>(
                    ProgramAggregateStats {
                        total_funds: p.total_funds,
                        remaining_balance: p.remaining_balance,
                        total_paid_out: (p.total_funds - p.remaining_balance) as i128,
                        payout_count: p.payout_history.len() as u64,
                        scheduled_count: (self@.schedules.len() - released_count(
                            self@.schedules,
                        )) as u64,
                        released_count: released_count(self@.schedules) as u64,
                    },
                ),
                None => r == Err::<ProgramAggregateStats, Error>(Error::NotInitialized),
            },
    {
        match &self.program {
            None => Err(Error::NotInitialized),
            Some(p) => {
                let mut scheduled: u64 = 0;
                let mut released: u64 = 0;
                let mut i: usize = 0;
                assert(self.schedules@.take(0) =~= Seq::<ProgramReleaseSchedule>::empty());
                while i < self.schedules.len()
                    invariant
                        i <= self.schedules.len(),
                        released == released_count(self.schedules@.take(i as int)),
                        scheduled + released == i,
                    decreases self.schedules.len() - i,
                {
                    proof {
                        assert(self.schedules@.take(i as int + 1).drop_last()
                            =~= self.schedules@.take(i as int));
                    }
                    if self.schedules[i].released {
                        released = released + 1;
                    } else {
                        scheduled = scheduled + 1;
                    }
                    i = i + 1;
                }
                assert(self.schedules@.take(i as int) =~= self.schedules@);
                Ok(
                    ProgramAggregateStats {
                        total_funds: p.total_funds,
                        remaining_balance: p.remaining_balance,
                        total_paid_out: p.total_funds - p.remaining_balance,
                        payout_count: p.payout_history.len() as u64,
                        scheduled_count: scheduled,
                        released_count: released,
                    },
                )
            },
        }
    }
}

/// The views of `items`, in their order.
pub open spec fn item_views(items: Seq<ProgramInitItem>) -> Seq<ProgramInitItemView> {
    items.map_values(|x: ProgramInitItem| x@)
}

/// Whether two items of the batch carry the same identifier.
pub open spec fn has_duplicate_ids(items: Seq<ProgramInitItemView>) -> bool {
    exists|i: int, j: int|
        0 <= i < j < items.len() && (#[trigger] items[i]).program_id == (
        #[trigger] items[j]).program_id
}

/// Whether a program with identifier `id` is registered.
pub open spec fn is_registered(registry: Seq<ProgramView>, id: Seq<char>) -> bool {
    exists|k: int| 0 <= k < registry.len() && (#[trigger] registry[k]).program_id == id
}

/// The verdict on a batch, by the first rule that it breaks: its size must
/// lie in `1 ..= MAX_BATCH_SIZE`; no identifier may occur twice; none may be
/// registered already; none may be empty (reported as `InvalidBatchSize`).
pub open spec fn batch_verdict(items: Seq<ProgramInitItemView>, registry: Seq<ProgramView>) -> Result<
    (),
    BatchError,
> {
    if items.len() == 0 || items.len() > MAX_BATCH_SIZE {
        Err(BatchError::InvalidBatchSize)
    } else if has_duplicate_ids(items) {
        Err(BatchError::DuplicateProgramId)
    } else if exists|i: int|
        0 <= i < items.len() && is_registered(registry, (#[trigger] items[i]).program_id) {
        Err(BatchError::ProgramAlreadyExists)
    } else if exists|i: int| 0 <= i < items.len() && (#[trigger] items[i]).program_id.len() == 0 {
        Err(BatchError::InvalidBatchSize)
    } else {
        Ok(())
    }
}

/// The programs that a batch registers: one per item, without funds.
pub open spec fn batch_programs(items: Seq<ProgramInitItemView>) -> Seq<ProgramView> {
    Seq::new(
        items.len(),
        |i: int|
            ProgramView::empty(
                items[i].program_id,
                items[i].authorized_payout_key,
                items[i].token_address,
            ),
    )
}

/// The events of a batch: one per item, in order.
pub open spec fn batch_events(items: Seq<ProgramInitItemView>) -> Seq<EventView> {
    Seq::new(
        items.len(),
        |i: int|
            EventView::ProgramRegistered {
                program_id: items[i].program_id,
                authorized_payout_key: items[i].authorized_payout_key,
                token_address: items[i].token_address,
                total_funds: 0,
            },
    )
}

impl ProgramState {
    /// Registering all programs of the batch, or none. The call fails with
    /// `Reentrancy` while a protected call is in flight, and else with the
    /// entry of the taxonomy that stands for the verdict on the batch.
    /// Nothing but the registry changes.
    pub open spec fn batch_initialize_programs(self, items: Seq<ProgramInitItemView>) -> Result<
        (ProgramState, OutcomeView<u32>),
        Error,
    > {
        if self.guard.entered {
            Err(Error::Reentrancy)
        } else {
            match batch_verdict(items, self.registry) {
                Err(e) => Err(e.spec_to_error()),
                Ok(_) => Ok(
                    (
                        ProgramState { registry: self.registry + batch_programs(items), ..self },
                        OutcomeView {
                            value: items.len() as u32,
                            transfers: Seq::empty(),
                            events: batch_events(items),
                        },
                    ),
                ),
            }
        }
    }
}

/// Decides `batch_verdict` for a batch against the registered programs.
#[verifier::loop_isolation(false)]
pub fn validate_batch(items: &Vec<ProgramInitItem>, registry: &Vec<ProgramData>) -> (r: Result<
    (),
    BatchError,
>)
    ensures
        r == batch_verdict(item_views(items@), program_views(registry@)),
{
    let ghost views = item_views(items@);
    let ghost known = program_views(registry@);
    let n: usize = items.len();
    if n == 0 || n > MAX_BATCH_SIZE as usize {
        return Err(BatchError::InvalidBatchSize);
    }
    let mut i: usize = 0;
    while i < n
        invariant
            i <= n,
            forall|a: int, b: int|
                0 <= a < b < n && a < i ==> (#[trigger] views[a]).program_id != (
                #[trigger] views[b]).program_id,
        decreases n - i,
    {
        let mut j: usize = i + 1;
        while j < n
            invariant
                i < j <= n,
                forall|b: int|
                    i < b < j ==> views[i as int].program_id != (#[trigger] views[b]).program_id,
            decreases n - j,
        {
            assert(views[i as int] == items@[i as int]@);
            assert(views[j as int] == items@[j as int]@);
            if items[i].program_id == items[j].program_id {
                assert(has_duplicate_ids(views));
                return Err(BatchError::DuplicateProgramId);
            }
            j = j + 1;
        }
        i = i + 1;
    }
    assert(!has_duplicate_ids(views));
    let mut i: usize = 0;
    while i < n
        invariant
            i <= n,
            forall|a: int| 0 <= a < i ==> !is_registered(known, (#[trigger] views[a]).program_id),
        decreases n - i,
    {
        let mut k: usize = 0;
        while k < registry.len()
            invariant
                k <= registry.len(),
                forall|b: int|
                    0 <= b < k ==> (#[trigger] known[b]).program_id != views[i as int].program_id,
            decreases registry.len() - k,
        {
            assert(views[i as int] == items@[i as int]@);
            assert(known[k as int] == registry@[k as int]@);
            if registry[k].program_id == items[i].program_id {
                assert(is_registered(known, views[i as int].program_id));
                return Err(BatchError::ProgramAlreadyExists);
            }
            k = k + 1;
        }
        i = i + 1;
    }
    let mut i: usize = 0;
    while i < n
        invariant
            i <= n,
            forall|a: int| 0 <= a < i ==> (#[trigger] views[a]).program_id.len() > 0,
        decreases n - i,
    {
        assert(views[i as int] == items@[i as int]@);
        if items[i].program_id.as_str().is_empty() {
            return Err(BatchError::InvalidBatchSize);
        }
        i = i + 1;
    }
    Ok(())
}

impl ProgramEscrowContract {
    /// Registers all programs of the batch, or none, and gives their number.
    #[verifier::loop_isolation(false)]
    pub fn batch_initialize_programs(&mut self, items: &Vec<ProgramInitItem>) -> (r: Result<
        Outcome<u32>,
        Error,
    >)
        requires
            old(self)@.operable(),
        ensures
            final(self)@.operable(),
            agrees(
                r,
                old(self)@,
                final(self)@,
                old(self)@.batch_initialize_programs(item_views(items@)),
            ),
    {
        if self.guard.entered {
            return Err(Error::Reentrancy);
        }
        match validate_batch(items, &self.registry) {
            Err(e) => {
                return Err(e.to_error());
            },
            Ok(_) => {},
        }
        let ghost before = self@;
        let ghost views = item_views(items@);
        let mut events: Vec<Event> = Vec::new();
        let mut i: usize = 0;
        while i < items.len()
            invariant
                i <= items.len(),
                events.len() == i,
                event_views(events@) == batch_events(views).take(i as int),
                self@ == (ProgramState {
                    registry: before.registry + batch_programs(views).take(i as int),
                    ..before
                }),
            decreases items.len() - i,
        {
            let item = &items[i];
            assert(views[i as int] == items@[i as int]@);
            let ghost registered = self.registry@;
            let program = ProgramData {
                program_id: item.program_id.clone(),
                total_funds: 0,
                remaining_balance: 0,
                authorized_payout_key: item.authorized_payout_key,
                payout_history: Vec::new(),
                token_address: item.token_address,
            };
            assert(program@ == batch_programs(views)[i as int]);
            self.registry.push(program);
            assert(program_views(self.registry@) =~= program_views(registered).push(program@));
            assert(before.registry + batch_programs(views).take(i as int + 1) =~= (before.registry
                + batch_programs(views).take(i as int)).push(program@));
            let ghost published = event_views(events@);
            events.push(
                Event::ProgramRegistered {
                    program_id: item.program_id.clone(),
                    authorized_payout_key: item.authorized_payout_key,
                    token_address: item.token_address,
                    total_funds: 0,
                },
            );
            assert(event_views(events@) =~= published.push(batch_events(views)[i as int]));
            assert(event_views(events@) =~= batch_events(views).take(i as int + 1));
            i = i + 1;
        }
        assert(batch_programs(views).take(i as int) =~= batch_programs(views));
        assert(batch_events(views).take(i as int) =~= batch_events(views));
        proof {
            let after = self@.registry;
            assert forall|a: int, b: int| 0 <= a < b < after.len() implies (#[trigger] after[a]).program_id
                != (#[trigger] after[b]).program_id by {
                let m = before.registry.len() as int;
                if b < m {
                } else if a >= m {
                    assert(views[a - m].program_id != views[b - m].program_id);
                } else {
                    assert(!is_registered(before.registry, views[b - m].program_id));
                    assert(before.registry[a].program_id != views[b - m].program_id);
                }
            }
            assert forall|a: int| 0 <= a < after.len() implies (#[trigger] after[a]).program_id.len()
                > 0 by {
                let m = before.registry.len() as int;
                if a >= m {
                    assert(views[a - m].program_id.len() > 0);
                }
            }
        }
        Ok(Outcome { value: items.len() as u32, transfers: Vec::new(), events })
    }

    /// Whether a program with identifier `program_id` is registered.
    pub fn program_exists(&self, program_id: &String) -> (b: bool)
        ensures
            b == is_registered(self@.registry, program_id@),
    {
        let ghost known = self@.registry;
        let mut k: usize = 0;
        while k < self.registry.len()
            invariant
                k <= self.registry.len(),
                known == program_views(self.registry@),
                forall|b: int| 0 <= b < k ==> (#[trigger] known[b]).program_id != program_id@,
            decreases self.registry.len() - k,
        {
            assert(known[k as int] == self.registry@[k as int]@);
            if self.registry[k].program_id == *program_id {
                return true;
            }
            k = k + 1;
        }
        false
    }

    /// How many programs are registered.
    pub fn get_program_count(&self) -> (n: u64)
        ensures
            n == self@.registry.len(),
    {
        self.registry.len() as u64
    }

    /// The registered programs, in the order of their registration.
    pub fn list_programs(&self) -> (list: Vec<ProgramData>)
        ensures
            program_views(list@) == self@.registry,
    {
        let mut list: Vec<ProgramData> = Vec::new();
        let mut i: usize = 0;
        while i < self.registry.len()
            invariant
                i <= self.registry.len(),
                list.len() == i,
                forall|j: int| 0 <= j < i ==> list@[j]@ == self.registry@[j]@,
            decreases self.registry.len() - i,
        {
            list.push(self.registry[i].clone());
            i = i + 1;
        }
        assert(program_views(list@) =~= program_views(self.registry@));
        list
    }
}

/// A filter over the payout log.
#[derive(Clone, Copy, Debug, PartialEq, Eq, Structural)]
#[allow(inconsistent_fields)]
pub enum PayoutFilter {
    /// Payouts to one recipient.
    Recipient(Address),
    /// Payouts whose amount lies in `min ..= max`.
    Amount { min: i128, max: i128 },
    /// Payouts made at a time in `min ..= max`.
    Timestamp { min: u64, max: u64 },
}

impl Criterion<PayoutRecord> for PayoutFilter {
    open spec fn admits(&self, item: PayoutRecord) -> bool {
        match *self {
            PayoutFilter::Recipient(who) => item.recipient == who,
            PayoutFilter::Amount { min, max } => min <= item.amount <= max,
            PayoutFilter::Timestamp { min, max } => min <= item.timestamp <= max,
        }
    }

    fn test(&self, item: &PayoutRecord) -> (b: bool) {
        match *self {
            PayoutFilter::Recipient(who) => item.recipient == who,
            PayoutFilter::Amount { min, max } => min <= item.amount && item.amount <= max,
            PayoutFilter::Timestamp { min, max } => min <= item.timestamp && item.timestamp <= max,
        }
    }
}

/// A filter over the schedules.
#[derive(Clone, Copy, Debug, PartialEq, Eq, Structural)]
pub enum ScheduleFilter {
    /// Schedules for one recipient.
    Recipient(Address),
    /// Schedules that are released, or those that are not.
    Status(bool),
    /// Schedules that are not released and whose time has come at the given
    /// moment.
    Due(u64),
}

impl Criterion<ProgramReleaseSchedule> for ScheduleFilter {
    open spec fn admits(&self, item: ProgramReleaseSchedule) -> bool {
        match *self {
            ScheduleFilter::Recipient(who) => item.recipient == who,
            ScheduleFilter::Status(released) => item.released == released,
            ScheduleFilter::Due(now) => is_due(item, now),
        }
    }

    fn test(&self, item: &ProgramReleaseSchedule) -> (b: bool) {
        match *self {
            ScheduleFilter::Recipient(who) => item.recipient == who,
            ScheduleFilter::Status(released) => item.released == released,
            ScheduleFilter::Due(now) => !item.released && now >= item.release_timestamp,
        }
    }
}

/// A filter over the release history.
#[derive(Clone, Copy, Debug, PartialEq, Eq, Structural)]
pub enum ReleaseFilter {
    /// Releases to one recipient.
    Recipient(Address),
}

impl Criterion<ProgramReleaseHistory> for ReleaseFilter {
    open spec fn admits(&self, item: ProgramReleaseHistory) -> bool {
        match *self {
            ReleaseFilter::Recipient(who) => item.recipient == who,
        }
    }

    fn test(&self, item: &ProgramReleaseHistory) -> (b: bool) {
        match *self {
            ReleaseFilter::Recipient(who) => item.recipient == who,
        }
    }
}

/// The sum of the amounts of the schedules that are not released.
pub open spec fn pending_total(schedules: Seq<ProgramReleaseSchedule>) -> int
    decreases schedules.len(),
{
    if schedules.len() == 0 {
        0
    } else {
        pending_total(schedules.drop_last()) + if schedules.last().released {
            0
        } else {
            schedules.last().amount as int
        }
    }
}

/// With positive amounts the sum over a part of the schedules from the start
/// is at most the sum over all of them, and never negative.
pub proof fn lemma_pending_total_grows(schedules: Seq<ProgramReleaseSchedule>, n: int)
    requires
        0 <= n <= schedules.len(),
        forall|i: int| 0 <= i < schedules.len() ==> (#[trigger] schedules[i]).amount > 0,
    ensures
        0 <= pending_total(schedules.take(n)) <= pending_total(schedules),
    decreases schedules.len() - n,
{
    if n < schedules.len() {
        assert(schedules.take(n + 1).drop_last() =~= schedules.take(n));
        lemma_pending_total_grows(schedules, n + 1);
        if n > 0 {
            assert(schedules.take(n).take(n - 1) =~= schedules.take(n - 1));
        }
    } else {
        assert(schedules.take(n) =~= schedules);
    }
    lemma_pending_total_nonnegative(schedules.take(n));
}

/// With positive amounts the sum is never negative.
pub proof fn lemma_pending_total_nonnegative(schedules: Seq<ProgramReleaseSchedule>)
    requires
        forall|i: int| 0 <= i < schedules.len() ==> (#[trigger] schedules[i]).amount > 0,
    ensures
        0 <= pending_total(schedules),
    decreases schedules.len(),
{
    if schedules.len() > 0 {
        assert forall|i: int| 0 <= i < schedules.drop_last().len() implies (
        #[trigger] schedules.drop_last()[i]).amount > 0 by {
            assert(schedules.drop_last()[i] == schedules[i]);
        }
        lemma_pending_total_nonnegative(schedules.drop_last());
    }
}

impl ProgramEscrowContract {
    /// A page of the payout log under `filter`, or `NotInitialized`.
    pub fn query_payouts(&self, filter: PayoutFilter, offset: u32, limit: u32) -> (r: Result<
        Vec<PayoutRecord>,
        Error,
    >)
        ensures
            match self@.program {
                Some(p) => r is Ok && r->Ok_0@ == page_of(
                    matching(p.payout_history, filter),
                    offset as nat,
                    limit as nat,
                ),
                None => r is Err && r->Err_0 == Error::NotInitialized,
            },
    {
        match &self.program {
            Some(p) => Ok(select_page(&p.payout_history, &filter, offset, limit)),
            None => Err(Error::NotInitialized),
        }
    }

    /// A page of the payouts to `recipient`, oldest first.
    pub fn query_payouts_by_recipient(&self, recipient: Address, offset: u32, limit: u32) -> (r:
        Result<Vec<PayoutRecord>, Error>)
        ensures
            match self@.program {
                Some(p) => r is Ok && r->Ok_0@ == page_of(
                    matching(p.payout_history, PayoutFilter::Recipient(recipient)),
                    offset as nat,
                    limit as nat,
                ),
                None => r is Err && r->Err_0 == Error::NotInitialized,
            },
    {
        self.query_payouts(PayoutFilter::Recipient(recipient), offset, limit)
    }

    /// A page of the payouts whose amount lies in `min_amount ..= max_amount`.
    pub fn query_payouts_by_amount(
        &self,
        min_amount: i128,
        max_amount: i128,
        offset: u32,
        limit: u32,
    ) -> (r: Result<Vec<PayoutRecord>, Error>)
        ensures
            match self@.program {
                Some(p) => r is Ok && r->Ok_0@ == page_of(
                    matching(
                        p.payout_history,
                        PayoutFilter::Amount { min: min_amount, max: max_amount },
                    ),
                    offset as nat,
                    limit as nat,
                ),
                None => r is Err && r->Err_0 == Error::NotInitialized,
            },
    {
        self.query_payouts(PayoutFilter::Amount { min: min_amount, max: max_amount }, offset, limit)
    }

    /// A page of the payouts made at a time in
    /// `min_timestamp ..= max_timestamp`.
    pub fn query_payouts_by_timestamp(
        &self,
        min_timestamp: u64,
        max_timestamp: u64,
        offset: u32,
        limit: u32,
    ) -> (r: Result<Vec<PayoutRecord>, Error>)
        ensures
            match self@.program {
                Some(p) => r is Ok && r->Ok_0@ == page_of(
                    matching(
                        p.payout_history,
                        PayoutFilter::Timestamp { min: min_timestamp, max: max_timestamp },
                    ),
                    offset as nat,
                    limit as nat,
                ),
                None => r is Err && r->Err_0 == Error::NotInitialized,
            },
    {
        self.query_payouts(
            PayoutFilter::Timestamp { min: min_timestamp, max: max_timestamp },
            offset,
            limit,
        )
    }

    /// A page of the payouts to `recipient`, oldest first.
    pub fn get_payouts_by_recipient(&self, recipient: Address, offset: u32, limit: u32) -> (r: Result<
        Vec<PayoutRecord>,
        Error,
    >)
        ensures
            match self@.program {
                Some(p) => r is Ok && r->Ok_0@ == page_of(
                    matching(p.payout_history, PayoutFilter::Recipient(recipient)),
                    offset as nat,
                    limit as nat,
                ),
                None => r is Err && r->Err_0 == Error::NotInitialized,
            },
    {
        self.query_payouts(PayoutFilter::Recipient(recipient), offset, limit)
    }

    /// A page of the schedules for `recipient`, in the order of their
    /// identifiers.
    pub fn query_schedules_by_recipient(&self, recipient: Address, offset: u32, limit: u32) -> (page:
        Vec<ProgramReleaseSchedule>)
        ensures
            page@ == page_of(
                matching(self@.schedules, ScheduleFilter::Recipient(recipient)),
                offset as nat,
                limit as nat,
            ),
    {
        select_page(&self.schedules, &ScheduleFilter::Recipient(recipient), offset, limit)
    }

    /// A page of the schedules that are released, or of those that are not.
    pub fn query_schedules_by_status(&self, released: bool, offset: u32, limit: u32) -> (page: Vec<
        ProgramReleaseSchedule,
    >)
        ensures
            page@ == page_of(
                matching(self@.schedules, ScheduleFilter::Status(released)),
                offset as nat,
                limit as nat,
            ),
    {
        select_page(&self.schedules, &ScheduleFilter::Status(released), offset, limit)
    }

    /// A page of the scheduled payouts made to `recipient`, oldest first.
    pub fn query_releases_by_recipient(&self, recipient: Address, offset: u32, limit: u32) -> (page:
        Vec<ProgramReleaseHistory>)
        ensures
            page@ == page_of(
                matching(self@.release_history, ReleaseFilter::Recipient(recipient)),
                offset as nat,
                limit as nat,
            ),
    {
        select_page(&self.release_history, &ReleaseFilter::Recipient(recipient), offset, limit)
    }

    /// The schedules that are not released.
    pub fn get_pending_schedules(&self) -> (list: Vec<ProgramReleaseSchedule>)
        ensures
            list@ == matching(self@.schedules, ScheduleFilter::Status(false)),
    {
        select_all(&self.schedules, &ScheduleFilter::Status(false))
    }

    /// The schedules that are not released and whose time has come at `now`.
    pub fn get_due_schedules(&self, now: u64) -> (list: Vec<ProgramReleaseSchedule>)
        ensures
            list@ == matching(self@.schedules, ScheduleFilter::Due(now)),
    {
        select_all(&self.schedules, &ScheduleFilter::Due(now))
    }

    /// The sum of the amounts of the schedules that are not released, or
    /// `Overflow` where it leaves the 128-bit range.
    pub fn get_total_scheduled_amount(&self) -> (r: Result<i128, Error>)
        requires
            self@.wf(),
        ensures
            pending_total(self@.schedules) <= i128::MAX ==> r == Ok::<i128, Error>(
                pending_total(self@.schedules) as i128,
            ),
            pending_total(self@.schedules) > i128::MAX ==> r == Err::<i128, Error>(Error::Overflow),
    {
        let mut total: i128 = 0;
        let mut i: usize = 0;
        let ghost all = self.schedules@;
        assert(all.take(0) =~= Seq::<ProgramReleaseSchedule>::empty());
        while i < self.schedules.len()
            invariant
                i <= self.schedules.len(),
                all == self.schedules@,
                forall|k: int| 0 <= k < all.len() ==> (#[trigger] all[k]).amount > 0,
                0 <= total,
                total == pending_total(all.take(i as int)),
            decreases self.schedules.len() - i,
        {
            let s: ProgramReleaseSchedule = self.schedules[i];
            proof {
                assert(all.take(i as int + 1).drop_last() =~= all.take(i as int));
                assert(all.take(i as int + 1).last() == s);
            }
            if !s.released {
                if total > i128::MAX - s.amount {
                    proof {
                        lemma_pending_total_grows(all, i as int + 1);
                    }
                    return Err(Error::Overflow);
                }
                total = total + s.amount;
            }
            i = i + 1;
        }
        assert(all.take(i as int) =~= all);
        Ok(total)
    }
}

/// With positive amounts the sum over a part of the log from the start is at
/// most the sum over all of it, and never negative.
pub proof fn lemma_paid_total_grows(history: Seq<PayoutRecord>, n: int)
    requires
        0 <= n <= history.len(),
        forall|i: int| 0 <= i < history.len() ==> (#[trigger] history[i]).amount > 0,
    ensures
        0 <= paid_total(history.take(n)) <= paid_total(history),
    decreases n,
{
    if n == 0 {
        assert(history.take(0) =~= Seq::<PayoutRecord>::empty());
        lemma_paid_total_concat(history.take(0), history);
        assert(history.take(0) + history =~= history);
        lemma_paid_total_nonnegative(history);
    } else {
        assert(history.take(n) + history.skip(n) =~= history);
        lemma_paid_total_concat(history.take(n), history.skip(n));
        assert forall|i: int| 0 <= i < history.skip(n).len() implies (
        #[trigger] history.skip(n)[i]).amount > 0 by {
            assert(history.skip(n)[i] == history[i + n]);
        }
        lemma_paid_total_nonnegative(history.skip(n));
        assert forall|i: int| 0 <= i < history.take(n).len() implies (
        #[trigger] history.take(n)[i]).amount > 0 by {
            assert(history.take(n)[i] == history[i]);
        }
        lemma_paid_total_nonnegative(history.take(n));
    }
}

/// With positive amounts the sum is never negative.
pub proof fn lemma_paid_total_nonnegative(history: Seq<PayoutRecord>)
    requires
        forall|i: int| 0 <= i < history.len() ==> (#[trigger] history[i]).amount > 0,
    ensures
        0 <= paid_total(history),
    decreases history.len(),
{
    if history.len() > 0 {
        assert forall|i: int| 0 <= i < history.drop_last().len() implies (
        #[trigger] history.drop_last()[i]).amount > 0 by {
            assert(history.drop_last()[i] == history[i]);
        }
        lemma_paid_total_nonnegative(history.drop_last());
    }
}

impl ProgramState {
    /// The checks that can be made at run time: as many schedules are marked
    /// as the release history has entries; and, once the program is set up,
    /// its balance lies between 0 and its funds, every logged payout is
    /// positive, the logged payouts add up to what is missing from the
    /// funds, and the log is at least as long as the release history.
    pub open spec fn invariants_hold(self) -> bool {
        &&& released_count(self.schedules) == self.release_history.len()
        &&& self.program matches Some(p) ==> p.wf() && self.release_history.len()
            <= p.payout_history.len()
    }
}

/// A well-formed state passes the run-time checks.
pub proof fn lemma_wf_passes_checks(s: ProgramState)
    requires
        s.wf(),
    ensures
        s.invariants_hold(),
{
}

impl ProgramEscrowContract {
    /// Counts over the schedules and the payout log again and says whether
    /// they agree with the balance and with the release history.
    pub fn check_invariants(&self) -> (ok: bool)
        ensures
            ok == self@.invariants_hold(),
    {
        if count_released(&self.schedules) != self.release_history.len() {
            return false;
        }
        match &self.program {
            None => true,
            Some(p) => program_is_well_formed(p) && self.release_history.len()
                <= p.payout_history.len(),
        }
    }

    /// Switches the invariant checks off or on. While they are off no
    /// mutator may be called.
    pub fn set_invariant_checks_disabled(&mut self, disabled: bool)
        ensures
            final(self)@ == (ProgramState { checks_disabled: disabled, ..old(self)@ }),
    {
        self.checks_disabled = disabled;
    }

    /// Whether the invariant checks are switched off.
    pub fn invariant_checks_disabled(&self) -> (b: bool)
        ensures
            b == self@.checks_disabled,
    {
        self.checks_disabled
    }
}

/// Reentrancy: while a protected call is in flight every mutator fails with
/// `Reentrancy`.
pub proof fn lemma_reentrancy_blocks(
    s: ProgramState,
    a: Address,
    b: Address,
    amount: i128,
    t: u64,
    id: Seq<char>,
    recipients: Seq<Address>,
    amounts: Seq<i128>,
    flag: Option<bool>,
    change: FeeUpdate,
    limits: RateLimitConfig,
    multisig: MultisigView,
    thresholds: CircuitBreakerConfig,
    hash: WasmHash,
    items: Seq<ProgramInitItemView>,
)
    requires
        s.guard.entered,
    ensures
        s.batch_initialize_programs(items) is Err && s.batch_initialize_programs(items)->Err_0
            == Error::Reentrancy,
        s.init_program(id, a, b, t) is Err && s.init_program(id, a, b, t)->Err_0 == Error::Reentrancy,
        s.lock_program_funds(a, amount, t) is Err && s.lock_program_funds(a, amount, t)->Err_0
            == Error::Reentrancy,
        s.single_payout(a, b, amount, t) is Err && s.single_payout(a, b, amount, t)->Err_0
            == Error::Reentrancy,
        s.batch_payout(a, recipients, amounts, t) is Err && s.batch_payout(
            a,
            recipients,
            amounts,
            t,
        )->Err_0 == Error::Reentrancy,
        s.approve_payout(a, b, t) is Err && s.approve_payout(a, b, t)->Err_0 == Error::Reentrancy,
        s.create_program_release_schedule(a, b, amount, t, t) is Err
            && s.create_program_release_schedule(a, b, amount, t, t)->Err_0 == Error::Reentrancy,
        s.trigger_program_releases(a, t) is Err && s.trigger_program_releases(a, t)->Err_0
            == Error::Reentrancy,
        s.set_admin(a, b) is Err && s.set_admin(a, b)->Err_0 == Error::Reentrancy,
        s.update_rate_limit_config(a, limits) is Err && s.update_rate_limit_config(a, limits)->Err_0
            == Error::Reentrancy,
        s.set_whitelist(a, b, true) is Err && s.set_whitelist(a, b, true)->Err_0
            == Error::Reentrancy,
        s.set_paused(a, flag, flag, flag) is Err && s.set_paused(a, flag, flag, flag)->Err_0
            == Error::Reentrancy,
        s.update_fee_config(a, change) is Err && s.update_fee_config(a, change)->Err_0
            == Error::Reentrancy,
        s.set_multisig_config(a, multisig) is Err && s.set_multisig_config(a, multisig)->Err_0
            == Error::Reentrancy,
        s.set_circuit_admin(a, Some(b)) is Err && s.set_circuit_admin(a, Some(b))->Err_0
            == Error::Reentrancy,
        s.reset_circuit_breaker(a) is Err && s.reset_circuit_breaker(a)->Err_0 == Error::Reentrancy,
        s.set_config(a, thresholds) is Err && s.set_config(a, thresholds)->Err_0
            == Error::Reentrancy,
        s.upgrade(a, hash) is Err && s.upgrade(a, hash)->Err_0 == Error::Reentrancy,
{
}

/// Upgrade preservation: an upgrade changes the hash of the executable and
/// nothing else, so an upgrade followed by the upgrade back to the first
/// hash gives the state as it was, the administrator included.
pub proof fn lemma_upgrade_round_trip(s: ProgramState, caller: Address, other: WasmHash)
    requires
        s.upgrade(caller, other) is Ok,
    ensures
        s.upgrade(caller, other)->Ok_0 == (ProgramState { wasm_hash: other, ..s }),
        s.upgrade(caller, other)->Ok_0.admin == s.admin,
        s.upgrade(caller, other)->Ok_0.upgrade(caller, s.wasm_hash) == Ok::<ProgramState, Error>(s),
{
}

/// A list with an amount that is not positive has no total.
pub proof fn lemma_checked_total_rejects(amounts: Seq<i128>, i: int)
    requires
        0 <= i < amounts.len(),
        amounts[i] <= 0,
    ensures
        checked_total(amounts) is Err,
{
    if checked_total(amounts) is Ok {
        lemma_checked_total(amounts);
    }
}

/// Batch atomicity of `batch_payout`: one element that cannot be paid, for
/// an amount that is not positive or a fee that cannot be computed, or a
/// total that the balance does not cover, fails the whole batch; and a
/// failed batch leaves the state as it was, which is what `agrees` demands
/// of the call.
pub proof fn lemma_batch_payout_is_atomic(
    s: ProgramState,
    caller: Address,
    recipients: Seq<Address>,
    amounts: Seq<i128>,
    now: u64,
    i: int,
)
    requires
        recipients.len() == amounts.len(),
        0 <= i < amounts.len(),
        amounts[i] <= 0 || s.fee_overflows(recipients[i], amounts[i]) || (s.program is Some
            && checked_total(amounts) is Ok && checked_total(amounts)->Ok_0
            > s.program->0.remaining_balance),
    ensures
        s.batch_payout(caller, recipients, amounts, now) is Err,
{
    if amounts[i] <= 0 {
        lemma_checked_total_rejects(amounts, i);
    }
}

/// Batch atomicity of `batch_initialize_programs`: one item that cannot be
/// registered, because its identifier is empty, registered already or
/// carried by another item too, fails the whole batch; and a failed batch
/// leaves the state as it was, which is what `agrees` demands of the call.
pub proof fn lemma_batch_initialize_is_atomic(s: ProgramState, items: Seq<ProgramInitItemView>, i: int)
    requires
        0 <= i < items.len(),
        items[i].program_id.len() == 0 || is_registered(s.registry, items[i].program_id) || exists|
            j: int,
        |
            0 <= j < items.len() && j != i && (#[trigger] items[j]).program_id
                == items[i].program_id,
    ensures
        s.batch_initialize_programs(items) is Err,
{
    if exists|j: int|
        0 <= j < items.len() && j != i && (#[trigger] items[j]).program_id == items[i].program_id {
        let j = choose|j: int|
            0 <= j < items.len() && j != i && (#[trigger] items[j]).program_id
                == items[i].program_id;
        if i < j {
            assert(items[i].program_id == items[j].program_id);
        } else {
            assert(items[j].program_id == items[i].program_id);
        }
        assert(has_duplicate_ids(items));
    }
}

/// All that the engine holds, laid open: what is written to and read from
/// the ledger's store between calls.
pub struct ProgramSnapshot {
    pub contract_address: Address,
    pub guard: ReentrancyGuard,
    pub pause: PauseFlags,
    pub admin: Option<Address>,
    pub program: Option<ProgramData>,
    pub schedules: Vec<ProgramReleaseSchedule>,
    pub release_history: Vec<ProgramReleaseHistory>,
    pub next_schedule_id: u64,
    pub registry: Vec<ProgramData>,
    pub fee_config: FeeConfig,
    pub multisig: MultisigConfig,
    pub approvals: Vec<PayoutApproval>,
    pub limiter: RateLimiter,
    pub breaker: CircuitBreaker,
    pub wasm_hash: WasmHash,
    pub checks_disabled: bool,
}

impl View for ProgramSnapshot {
    type V = ProgramState;

    open spec fn view(&self) -> ProgramState {
        ProgramState {
            contract_address: self.contract_address,
            guard: self.guard,
            pause: self.pause,
            admin: self.admin,
            program: match self.program {
                Some(p) => Some(p@),
                None => None,
            },
            schedules: self.schedules@,
            release_history: self.release_history@,
            next_schedule_id: self.next_schedule_id,
            registry: program_views(self.registry@),
            fee_config: self.fee_config,
            multisig: self.multisig@,
            approvals: approval_views(self.approvals@),
            limiter: self.limiter@,
            breaker: self.breaker@,
            wasm_hash: self.wasm_hash,
            checks_disabled: self.checks_disabled,
        }
    }
}

fn clone_programs(list: &Vec<ProgramData>) -> (copy: Vec<ProgramData>)
    ensures
        program_views(copy@) == program_views(list@),
{
    let mut copy: Vec<ProgramData> = Vec::new();
    let mut i: usize = 0;
    while i < list.len()
        invariant
            i <= list.len(),
            copy.len() == i,
            forall|j: int| 0 <= j < i ==> copy@[j]@ == list@[j]@,
        decreases list.len() - i,
    {
        copy.push(list[i].clone());
        i = i + 1;
    }
    assert(program_views(copy@) =~= program_views(list@));
    copy
}

fn clone_approvals(list: &Vec<PayoutApproval>) -> (copy: Vec<PayoutApproval>)
    ensures
        approval_views(copy@) == approval_views(list@),
{
    let mut copy: Vec<PayoutApproval> = Vec::new();
    let mut i: usize = 0;
    while i < list.len()
        invariant
            i <= list.len(),
            copy.len() == i,
            forall|j: int| 0 <= j < i ==> copy@[j]@ == list@[j]@,
        decreases list.len() - i,
    {
        copy.push(list[i].clone());
        i = i + 1;
    }
    assert(approval_views(copy@) =~= approval_views(list@));
    copy
}

fn count_released(schedules: &Vec<ProgramReleaseSchedule>) -> (n: usize)
    ensures
        n == released_count(schedules@),
{
    let mut released: usize = 0;
    let mut i: usize = 0;
    assert(schedules@.take(0) =~= Seq::<ProgramReleaseSchedule>::empty());
    while i < schedules.len()
        invariant
            i <= schedules.len(),
            released <= i,
            released == released_count(schedules@.take(i as int)),
        decreases schedules.len() - i,
    {
        proof {
            assert(schedules@.take(i as int + 1).drop_last() =~= schedules@.take(i as int));
        }
        if schedules[i].released {
            released = released + 1;
        }
        i = i + 1;
    }
    assert(schedules@.take(i as int) =~= schedules@);
    released
}

/// Whether `schedules` carry the identifiers 1, 2, ... in order, each with a
/// positive amount, and `next_schedule_id` is the one that follows.
#[verifier::loop_isolation(false)]
fn schedules_are_numbered(schedules: &Vec<ProgramReleaseSchedule>, next_schedule_id: u64) -> (b:
    bool)
    ensures
        b == (next_schedule_id >= 1 && schedules@.len() + 1 == next_schedule_id && forall|i: int|
            0 <= i < schedules@.len() ==> (#[trigger] schedules@[i]).schedule_id == i + 1
                && schedules@[i].amount > 0),
{
    if next_schedule_id < 1 {
        return false;
    }
    if schedules.len() as u64 != next_schedule_id - 1 {
        return false;
    }
    let mut i: usize = 0;
    while i < schedules.len()
        invariant
            i <= schedules.len(),
            forall|k: int|
                0 <= k < i ==> (#[trigger] schedules@[k]).schedule_id == k + 1 && schedules@[k].amount
                    > 0,
        decreases schedules.len() - i,
    {
        if schedules[i].schedule_id != i as u64 + 1 || schedules[i].amount <= 0 {
            return false;
        }
        i = i + 1;
    }
    true
}

/// Decides `ProgramView::wf` for a program.
#[verifier::loop_isolation(false)]
fn program_is_well_formed(p: &ProgramData) -> (b: bool)
    ensures
        b == p@.wf(),
{
    if p.remaining_balance < 0 || p.remaining_balance > p.total_funds {
        return false;
    }
    let ghost log = p.payout_history@;
    let mut k: usize = 0;
    while k < p.payout_history.len()
        invariant
            k <= p.payout_history.len(),
            forall|j: int| 0 <= j < k ==> (#[trigger] log[j]).amount > 0,
        decreases p.payout_history.len() - k,
    {
        if p.payout_history[k].amount <= 0 {
            return false;
        }
        k = k + 1;
    }
    let mut paid: i128 = 0;
    let mut k: usize = 0;
    assert(log.take(0) =~= Seq::<PayoutRecord>::empty());
    while k < p.payout_history.len()
        invariant
            k <= p.payout_history.len(),
            0 <= paid,
            paid == paid_total(log.take(k as int)),
        decreases p.payout_history.len() - k,
    {
        let amount: i128 = p.payout_history[k].amount;
        proof {
            assert(log.take(k as int + 1).drop_last() =~= log.take(k as int));
            assert(log.take(k as int + 1).last() == log[k as int]);
        }
        if paid > i128::MAX - amount {
            proof {
                lemma_paid_total_grows(log, k as int + 1);
            }
            return false;
        }
        paid = paid + amount;
        k = k + 1;
    }
    assert(log.take(k as int) =~= log);
    paid == p.total_funds - p.remaining_balance
}

/// Whether the registered programs carry identifiers that are not empty and
/// all different.
#[verifier::loop_isolation(false)]
fn registry_is_well_formed(registry: &Vec<ProgramData>) -> (b: bool)
    ensures
        b == ((forall|i: int, j: int|
            0 <= i < j < registry@.len() ==> (#[trigger] program_views(registry@)[i]).program_id != (
            #[trigger] program_views(registry@)[j]).program_id) && (forall|i: int|
            0 <= i < registry@.len() ==> (#[trigger] program_views(registry@)[i]).program_id.len()
                > 0)),
{
    let ghost views = program_views(registry@);
    let n: usize = registry.len();
    let mut i: usize = 0;
    while i < n
        invariant
            i <= n,
            forall|a: int| 0 <= a < i ==> (#[trigger] views[a]).program_id.len() > 0,
            forall|a: int, b: int|
                0 <= a < b < n && a < i ==> (#[trigger] views[a]).program_id != (
                #[trigger] views[b]).program_id,
        decreases n - i,
    {
        assert(views[i as int] == registry@[i as int]@);
        if registry[i].program_id.as_str().is_empty() {
            return false;
        }
        let mut j: usize = i + 1;
        while j < n
            invariant
                i < j <= n,
                forall|b: int|
                    i < b < j ==> views[i as int].program_id != (#[trigger] views[b]).program_id,
            decreases n - j,
        {
            assert(views[j as int] == registry@[j as int]@);
            if registry[i].program_id == registry[j].program_id {
                return false;
            }
            j = j + 1;
        }
        i = i + 1;
    }
    true
}

/// Whether the pending payouts are for recipients that are all different
/// and for positive amounts.
#[verifier::loop_isolation(false)]
fn approvals_are_well_formed(approvals: &Vec<PayoutApproval>) -> (b: bool)
    ensures
        b == ((forall|i: int, j: int|
            0 <= i < j < approvals@.len() ==> (#[trigger] approval_views(approvals@)[i]).recipient
                != (#[trigger] approval_views(approvals@)[j]).recipient) && (forall|i: int|
            0 <= i < approvals@.len() ==> (#[trigger] approval_views(approvals@)[i]).amount > 0)),
{
    let ghost views = approval_views(approvals@);
    let n: usize = approvals.len();
    let mut i: usize = 0;
    while i < n
        invariant
            i <= n,
            forall|a: int| 0 <= a < i ==> (#[trigger] views[a]).amount > 0,
            forall|a: int, b: int|
                0 <= a < b < n && a < i ==> (#[trigger] views[a]).recipient != (
                #[trigger] views[b]).recipient,
        decreases n - i,
    {
        assert(views[i as int] == approvals@[i as int]@);
        if approvals[i].amount <= 0 {
            return false;
        }
        let mut j: usize = i + 1;
        while j < n
            invariant
                i < j <= n,
                forall|b: int|
                    i < b < j ==> views[i as int].recipient != (#[trigger] views[b]).recipient,
            decreases n - j,
        {
            assert(views[j as int] == approvals@[j as int]@);
            if approvals[i].recipient == approvals[j].recipient {
                return false;
            }
            j = j + 1;
        }
        i = i + 1;
    }
    true
}

impl ProgramSnapshot {
    /// Decides whether the snapshot is a well-formed state.
    pub fn is_well_formed(&self) -> (b: bool)
        ensures
            b == self@.wf(),
    {
        let fees_ok: bool = 0 <= self.fee_config.lock_fee_rate && self.fee_config.lock_fee_rate
            <= crate::types::MAX_FEE_RATE && 0 <= self.fee_config.release_fee_rate
            && self.fee_config.release_fee_rate <= crate::types::MAX_FEE_RATE && 0
            <= self.fee_config.payout_fee_rate && self.fee_config.payout_fee_rate
            <= crate::types::MAX_FEE_RATE;
        if !fees_ok {
            return false;
        }
        if !self.limiter.is_well_formed() {
            return false;
        }
        if !schedules_are_numbered(&self.schedules, self.next_schedule_id) {
            return false;
        }
        if count_released(&self.schedules) != self.release_history.len() {
            return false;
        }
        let program_ok: bool = match &self.program {
            Some(p) => program_is_well_formed(p) && self.release_history.len()
                <= p.payout_history.len(),
            None => self.schedules.len() == 0 && self.approvals.len() == 0,
        };
        if !program_ok {
            return false;
        }
        if !registry_is_well_formed(&self.registry) {
            return false;
        }
        approvals_are_well_formed(&self.approvals)
    }
}

impl ProgramEscrowContract {
    /// All that the engine holds, as a snapshot.
    pub fn snapshot(&self) -> (s: ProgramSnapshot)
        ensures
            s@ == self@,
    {
        ProgramSnapshot {
            contract_address: self.contract_address,
            guard: self.guard,
            pause: self.pause,
            admin: self.admin,
            program: match &self.program {
                Some(p) => Some(p.clone()),
                None => None,
            },
            schedules: self.schedules.clone(),
            release_history: self.release_history.clone(),
            next_schedule_id: self.next_schedule_id,
            registry: clone_programs(&self.registry),
            fee_config: self.fee_config,
            multisig: self.multisig.clone(),
            approvals: clone_approvals(&self.approvals),
            limiter: self.limiter.clone(),
            breaker: self.breaker.clone(),
            wasm_hash: self.wasm_hash,
            checks_disabled: self.checks_disabled,
        }
    }

    /// The engine that holds what the snapshot holds, if the snapshot is a
    /// well-formed state; nothing if it is not.
    pub fn restore(snapshot: ProgramSnapshot) -> (r: Option<ProgramEscrowContract>)
        ensures
            snapshot@.wf() ==> r is Some && r->0@ == snapshot@,
            !snapshot@.wf() ==> r is None,
    {
        if !snapshot.is_well_formed() {
            return None;
        }
        Some(
            ProgramEscrowContract {
                contract_address: snapshot.contract_address,
                guard: snapshot.guard,
                pause: snapshot.pause,
                admin: snapshot.admin,
                program: snapshot.program,
                schedules: snapshot.schedules,
                release_history: snapshot.release_history,
                next_schedule_id: snapshot.next_schedule_id,
                registry: snapshot.registry,
                fee_config: snapshot.fee_config,
                multisig: snapshot.multisig,
                approvals: snapshot.approvals,
                limiter: snapshot.limiter,
                breaker: snapshot.breaker,
                wasm_hash: snapshot.wasm_hash,
                checks_disabled: snapshot.checks_disabled,
            },
        )
    }
}

/// The share of a transfer in the sum of what is moved.
pub open spec fn share_moved() -> spec_fn(Transfer) -> int {
    |t: Transfer| t.amount as int
}

/// The sum of the amounts of `transfers`.
pub open spec fn moved_total(transfers: Seq<Transfer>) -> int {
    crate::query::total(transfers, share_moved())
}

impl ProgramState {
    /// The transfers of one payout leave the engine's account, none is
    /// negative, and together they move the amount of the payout: the fee
    /// and what is left for the recipient.
    pub proof fn lemma_payout_moves_the_amount(self, recipient: Address, amount: i128)
        requires
            self.fee_config.wf(),
            amount > 0,
        ensures
            moved_total(self.payout_transfers(recipient, amount)) == amount,
            forall|i: int|
                0 <= i < self.payout_transfers(recipient, amount).len() ==> (
                #[trigger] self.payout_transfers(recipient, amount)[i]).from
                    == self.contract_address && self.payout_transfers(recipient, amount)[i].amount
                    >= 0,
            self.payout_transfers(recipient, amount).last().to == recipient,
    {
        let transfers = self.payout_transfers(recipient, amount);
        crate::fees::lemma_fee_at_most_half(amount as int, self.fee_config.payout_fee_rate as int);
        let none = Seq::<Transfer>::empty();
        assert(moved_total(none) == 0);
        crate::query::lemma_total_push(none, transfers[0], share_moved());
        if transfers.len() == 2 {
            crate::query::lemma_total_push(none.push(transfers[0]), transfers[1], share_moved());
            assert(none.push(transfers[0]).push(transfers[1]) =~= transfers);
        } else {
            assert(none.push(transfers[0]) =~= transfers);
        }
    }

    /// The transfers of a batch move the batch's total.
    pub proof fn lemma_batch_moves_the_total(self, recipients: Seq<Address>, amounts: Seq<i128>)
        requires
            self.fee_config.wf(),
            recipients.len() == amounts.len(),
            checked_total(amounts) is Ok,
        ensures
            moved_total(self.batch_transfers(recipients, amounts)) == checked_total(amounts)->Ok_0,
        decreases recipients.len(),
    {
        if recipients.len() > 0 {
            lemma_checked_total(amounts);
            self.lemma_batch_moves_the_total(recipients.drop_last(), amounts.drop_last());
            self.lemma_payout_moves_the_amount(recipients.last(), amounts.last());
            crate::query::lemma_total_concat(
                self.batch_transfers(recipients.drop_last(), amounts.drop_last()),
                self.payout_transfers(recipients.last(), amounts.last()),
                share_moved(),
            );
        }
    }

    /// The transfers of a pass over the schedules move what the pass takes
    /// off the balance.
    pub proof fn lemma_pass_moves_the_total(self, schedules: Seq<ProgramReleaseSchedule>, now: u64)
        requires
            self.fee_config.wf(),
            forall|i: int| 0 <= i < schedules.len() ==> (#[trigger] schedules[i]).amount > 0,
        ensures
            moved_total(self.release_pass(schedules, now).transfers) == self.release_pass(
                schedules,
                now,
            ).total,
        decreases schedules.len(),
    {
        if schedules.len() > 0 {
            let head = schedules.drop_last();
            let s = schedules.last();
            assert forall|i: int| 0 <= i < head.len() implies (#[trigger] head[i]).amount > 0 by {
                assert(head[i] == schedules[i]);
            }
            assert(s == schedules[schedules.len() - 1]);
            self.lemma_pass_moves_the_total(head, now);
            if is_due(s, now) {
                self.lemma_payout_moves_the_amount(s.recipient, s.amount);
                crate::query::lemma_total_concat(
                    self.release_pass(head, now).transfers,
                    self.payout_transfers(s.recipient, s.amount),
                    share_moved(),
                );
            }
        }
    }
}

/// The books follow the money: every call that pays asks for transfers that
/// move exactly what it takes off the program's balance.
pub proof fn lemma_transfers_match_books(
    s: ProgramState,
    caller: Address,
    recipient: Address,
    amount: i128,
    recipients: Seq<Address>,
    amounts: Seq<i128>,
    now: u64,
)
    requires
        s.wf(),
    ensures
        s.single_payout(caller, recipient, amount, now) matches Ok((t, out)) ==> moved_total(
            out.transfers,
        ) == s.program->0.remaining_balance - t.program->0.remaining_balance,
        s.approve_payout(caller, recipient, now) matches Ok((t, out)) ==> moved_total(out.transfers)
            == s.program->0.remaining_balance - t.program->0.remaining_balance,
        s.batch_payout(caller, recipients, amounts, now) matches Ok((t, out)) ==> moved_total(
            out.transfers,
        ) == s.program->0.remaining_balance - t.program->0.remaining_balance,
        s.trigger_program_releases(caller, now) matches Ok((t, out)) ==> moved_total(out.transfers)
            == s.program->0.remaining_balance - t.program->0.remaining_balance,
{
    if s.single_payout(caller, recipient, amount, now) is Ok {
        if amount < s.multisig.threshold_amount {
            s.lemma_payout_moves_the_amount(recipient, amount);
        }
    }
    if s.approve_payout(caller, recipient, now) is Ok {
        let i = first_index(s.approvals, |a: ApprovalView| a.recipient == recipient);
        crate::query::lemma_first_index(s.approvals, |a: ApprovalView| a.recipient == recipient);
        assert(s.approvals[i].amount > 0);
        s.lemma_payout_moves_the_amount(recipient, s.approvals[i].amount);
    }
    if s.batch_payout(caller, recipients, amounts, now) is Ok {
        lemma_checked_total(amounts);
        s.lemma_batch_moves_the_total(recipients, amounts);
    }
    if s.trigger_program_releases(caller, now) is Ok {
        s.lemma_release_pass(s.schedules, now);
        s.lemma_pass_moves_the_total(s.schedules, now);
    }
}

} // verus!
