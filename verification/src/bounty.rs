//! The bounty escrow engine: one entry per bounty, with its lifecycle, and
//! aggregate counters kept in step with the entries.

use vstd::prelude::*;
use crate::error::Error;
use crate::events::{
    agrees, agrees_plain, event_views, outcome_of, Event, EventView, Outcome, OutcomeView,
};
use crate::fees::{FeeConfig, FeeUpdate};
use crate::pause::PauseFlags;
use crate::query::{
    first_index, lemma_first_index, lemma_first_index_is, lemma_total_bounds, lemma_total_push,
    lemma_total_update, matching, page_of, select_page, total, Criterion,
};
use crate::reentrancy_guard::ReentrancyGuard;
use crate::types::{Address, Transfer};

verus! {

/// Where an entry stands in its lifecycle.
#[derive(Clone, Copy, Debug, PartialEq, Eq, Structural, Hash)]
pub enum EscrowStatus {
    Locked,
    Released,
    Refunded,
    PartiallyRefunded,
}

/// Whether an approved refund returns a part or all that remains.
#[derive(Clone, Copy, Debug, PartialEq, Eq, Structural)]
pub enum RefundMode {
    Partial,
    Full,
}

/// The right of `recipient` to collect `amount` until `expires_at`.
#[derive(Clone, Copy, Debug, PartialEq, Eq, Structural)]
pub struct PendingClaim {
    pub recipient: Address,
    pub amount: i128,
    pub expires_at: u64,
}

/// The administrator's consent to a refund before the deadline.
#[derive(Clone, Copy, Debug, PartialEq, Eq, Structural)]
pub struct RefundApproval {
    pub amount: i128,
    pub recipient: Address,
    pub mode: RefundMode,
}

/// One bounty in escrow.
#[derive(Clone, Copy, Debug, PartialEq, Eq, Structural)]
pub struct Escrow {
    pub depositor: Address,
    /// What was locked.
    pub amount: i128,
    /// What is still held.
    pub remaining_amount: i128,
    pub deadline: u64,
    pub status: EscrowStatus,
    pub pending_claim: Option<PendingClaim>,
    pub partial_refund_approval: Option<RefundApproval>,
}

/// An entry with the identifier of its bounty.
#[derive(Clone, Copy, Debug, PartialEq, Eq, Structural)]
pub struct EscrowWithId {
    pub bounty_id: u64,
    pub escrow: Escrow,
}

/// Running counts and totals over all entries.
#[derive(Clone, Copy, Debug, PartialEq, Eq, Structural)]
pub struct AggregateStats {
    pub count_locked: u64,
    pub count_released: u64,
    pub count_refunded: u64,
    pub count_partially_refunded: u64,
    /// What the engine still holds.
    pub total_locked: i128,
    /// What went to contributors.
    pub total_released: i128,
    /// What went back.
    pub total_refunded: i128,
}

/// What is known of a bounty outside the escrow.
#[derive(Debug)]
pub struct EscrowMetadata {
    pub repo_id: u64,
    pub issue_id: u64,
    pub bounty_type: String,
}

/// Metadata as a value, with the bounty it belongs to.
pub struct MetadataView {
    pub bounty_id: u64,
    pub repo_id: u64,
    pub issue_id: u64,
    pub bounty_type: Seq<char>,
}

/// The metadata of one bounty as the engine keeps it.
pub struct MetadataEntry {
    pub bounty_id: u64,
    pub metadata: EscrowMetadata,
}

impl View for MetadataEntry {
    type V = MetadataView;

    open spec fn view(&self) -> MetadataView {
        MetadataView {
            bounty_id: self.bounty_id,
            repo_id: self.metadata.repo_id,
            issue_id: self.metadata.issue_id,
            bounty_type: self.metadata.bounty_type@,
        }
    }
}

/// The views of `entries`, in their order.
pub open spec fn metadata_views(entries: Seq<MetadataEntry>) -> Seq<MetadataView> {
    entries.map_values(|m: MetadataEntry| m@)
}

/// The share of an entry in the sum of what was locked.
pub open spec fn share_amount() -> spec_fn(EscrowWithId) -> int {
    |e: EscrowWithId| e.escrow.amount as int
}

/// The share of an entry in the sum of what is still held.
pub open spec fn share_remaining() -> spec_fn(EscrowWithId) -> int {
    |e: EscrowWithId| e.escrow.remaining_amount as int
}

/// 1 for an entry in `status`, 0 for any other.
pub open spec fn share_status(status: EscrowStatus) -> spec_fn(EscrowWithId) -> int {
    |e: EscrowWithId|
        if e.escrow.status == status {
            1int
        } else {
            0int
        }
}

/// The sum of what was locked, over all entries.
pub open spec fn amount_sum(entries: Seq<EscrowWithId>) -> int {
    total(entries, share_amount())
}

/// The sum of what is still held, over all entries.
pub open spec fn remaining_sum(entries: Seq<EscrowWithId>) -> int {
    total(entries, share_remaining())
}

/// How many entries are in `status`.
pub open spec fn status_count(entries: Seq<EscrowWithId>, status: EscrowStatus) -> int {
    total(entries, share_status(status))
}

/// 1 if the two are the same status, else 0.
pub open spec fn one_if(a: EscrowStatus, b: EscrowStatus) -> int {
    if a == b {
        1
    } else {
        0
    }
}

impl Escrow {
    /// A new entry: all of `amount` held, nothing pending.
    pub open spec fn locked(depositor: Address, amount: i128, deadline: u64) -> Escrow {
        Escrow {
            depositor,
            amount,
            remaining_amount: amount,
            deadline,
            status: EscrowStatus::Locked,
            pending_claim: None,
            partial_refund_approval: None,
        }
    }

    /// Whether the lifecycle of the entry has ended.
    pub open spec fn is_terminal(self) -> bool {
        self.status == EscrowStatus::Released || self.status == EscrowStatus::Refunded
    }

    /// What holds of every entry: what is held lies between 0 and what was
    /// locked, and is 0 once the lifecycle has ended; a claim or an approval
    /// is pending only while the entry is locked, the claim for all that is
    /// held, the approval for a positive amount within it.
    pub open spec fn wf(self) -> bool {
        &&& 0 <= self.remaining_amount <= self.amount
        &&& self.is_terminal() ==> self.remaining_amount == 0
        &&& self.pending_claim matches Some(c) ==> self.status == EscrowStatus::Locked && c.amount
            == self.remaining_amount
        &&& self.partial_refund_approval matches Some(a) ==> self.status == EscrowStatus::Locked
            && 0 < a.amount <= self.remaining_amount
    }
}

impl AggregateStats {
    /// Nothing counted.
    pub open spec fn zero() -> AggregateStats {
        AggregateStats {
            count_locked: 0,
            count_released: 0,
            count_refunded: 0,
            count_partially_refunded: 0,
            total_locked: 0,
            total_released: 0,
            total_refunded: 0,
        }
    }

    /// The counters after one entry went from `from` to `to`, `released` of
    /// what it held going to a contributor and `refunded` going back.
    pub open spec fn shifted(
        self,
        from: EscrowStatus,
        to: EscrowStatus,
        released: int,
        refunded: int,
    ) -> AggregateStats {
        AggregateStats {
            count_locked: (self.count_locked - one_if(from, EscrowStatus::Locked) + one_if(
                to,
                EscrowStatus::Locked,
            )) as u64,
            count_released: (self.count_released - one_if(from, EscrowStatus::Released) + one_if(
                to,
                EscrowStatus::Released,
            )) as u64,
            count_refunded: (self.count_refunded - one_if(from, EscrowStatus::Refunded) + one_if(
                to,
                EscrowStatus::Refunded,
            )) as u64,
            count_partially_refunded: (self.count_partially_refunded - one_if(
                from,
                EscrowStatus::PartiallyRefunded,
            ) + one_if(to, EscrowStatus::PartiallyRefunded)) as u64,
            total_locked: (self.total_locked - released - refunded) as i128,
            total_released: (self.total_released + released) as i128,
            total_refunded: (self.total_refunded + refunded) as i128,
        }
    }
}

/// The aggregate counters say what a count over the entries says: each
/// status count is the number of entries in that status, the counts add
/// up to the number of entries, `total_locked` is the sum of what the
/// entries hold, and the three totals add up to the sum of what was
/// locked.
pub open spec fn aggregates_agree(entries: Seq<EscrowWithId>, stats: AggregateStats) -> bool {
    &&& stats.count_locked == status_count(entries, EscrowStatus::Locked)
    &&& stats.count_released == status_count(entries, EscrowStatus::Released)
    &&& stats.count_refunded == status_count(entries, EscrowStatus::Refunded)
    &&& stats.count_partially_refunded == status_count(
        entries,
        EscrowStatus::PartiallyRefunded,
    )
    &&& stats.count_locked + stats.count_released + stats.count_refunded
        + stats.count_partially_refunded == entries.len()
    &&& stats.total_locked == remaining_sum(entries)
    &&& stats.total_locked + stats.total_released + stats.total_refunded
        == amount_sum(entries)
    &&& stats.total_released >= 0
    &&& stats.total_refunded >= 0
}

/// No entry holds less than 0 or more than was locked, the sum of what was
/// locked fits into 128 bits, and `stats` says what a count over `entries`
/// says.
pub open spec fn entries_agree(entries: Seq<EscrowWithId>, stats: AggregateStats) -> bool {
    &&& forall|i: int|
        0 <= i < entries.len() ==> 0 <= (#[trigger] entries[i]).escrow.remaining_amount
            <= entries[i].escrow.amount
    &&& amount_sum(entries) <= i128::MAX
    &&& aggregates_agree(entries, stats)
}

/// The engine as a value.
pub struct BountyState {
    pub contract_address: Address,
    pub guard: ReentrancyGuard,
    pub pause: PauseFlags,
    pub admin: Option<Address>,
    pub token: Option<Address>,
    pub entries: Seq<EscrowWithId>,
    pub stats: AggregateStats,
    pub fee_config: FeeConfig,
    pub claim_window: u64,
    pub metadata: Seq<MetadataView>,
    pub checks_disabled: bool,
}

/// The bounty escrow engine.
pub struct BountyEscrowContract {
    contract_address: Address,
    guard: ReentrancyGuard,
    pause: PauseFlags,
    admin: Option<Address>,
    token: Option<Address>,
    entries: Vec<EscrowWithId>,
    stats: AggregateStats,
    fee_config: FeeConfig,
    claim_window: u64,
    metadata: Vec<MetadataEntry>,
    checks_disabled: bool,
}

impl View for BountyEscrowContract {
    type V = BountyState;

    closed spec fn view(&self) -> BountyState {
        BountyState {
            contract_address: self.contract_address,
            guard: self.guard,
            pause: self.pause,
            admin: self.admin,
            token: self.token,
            entries: self.entries@,
            stats: self.stats,
            fee_config: self.fee_config,
            claim_window: self.claim_window,
            metadata: metadata_views(self.metadata@),
            checks_disabled: self.checks_disabled,
        }
    }
}

impl BountyState {
    /// The engine at `contract_address` before `init`.
    pub open spec fn initial(contract_address: Address) -> BountyState {
        BountyState {
            contract_address,
            guard: ReentrancyGuard { entered: false },
            pause: PauseFlags { lock_paused: false, release_paused: false, refund_paused: false },
            admin: None,
            token: None,
            entries: Seq::empty(),
            stats: AggregateStats::zero(),
            fee_config: FeeConfig {
                lock_fee_rate: 0,
                release_fee_rate: 0,
                payout_fee_rate: 0,
                fee_recipient: contract_address,
                fee_enabled: false,
            },
            claim_window: 0,
            metadata: Seq::empty(),
            checks_disabled: false,
        }
    }

    /// The aggregate counters agree with the entries.
    pub open spec fn aggregates_hold(self) -> bool {
        aggregates_agree(self.entries, self.stats)
    }

    /// What every reachable state satisfies.
    pub open spec fn wf(self) -> bool {
        &&& self.fee_config.wf()
        &&& self.admin is Some <==> self.token is Some
        &&& self.admin is None ==> self.entries.len() == 0
        &&& forall|i: int, j: int|
            0 <= i < j < self.entries.len() ==> (#[trigger] self.entries[i]).bounty_id != (
            #[trigger] self.entries[j]).bounty_id
        &&& forall|i: int| 0 <= i < self.entries.len() ==> (#[trigger] self.entries[i]).escrow.wf()
        &&& self.aggregates_hold()
        &&& self.entries.len() <= u64::MAX
        &&& amount_sum(self.entries) <= i128::MAX
        &&& forall|i: int, j: int|
            0 <= i < j < self.metadata.len() ==> (#[trigger] self.metadata[i]).bounty_id != (
            #[trigger] self.metadata[j]).bounty_id
    }

    /// Well formed and with the invariant checks switched on: the states in
    /// which the mutators may be called.
    pub open spec fn operable(self) -> bool {
        self.wf() && !self.checks_disabled
    }

    /// The checks in front of every call that changes an entry: the
    /// reentrancy guard, the pause flag of the call, and that `init` has run.
    pub open spec fn gate(self, paused: bool) -> Result<(), Error> {
        if self.guard.entered {
            Err(Error::Reentrancy)
        } else if paused {
            Err(Error::Paused)
        } else if self.admin is None {
            Err(Error::NotInitialized)
        } else {
            Ok(())
        }
    }

    /// As `gate`, and then `caller` must be the administrator.
    pub open spec fn admin_gate(self, paused: bool, caller: Address) -> Result<(), Error> {
        match self.gate(paused) {
            Err(e) => Err(e),
            Ok(_) => if self.admin != Some(caller) {
                Err(Error::Unauthorized)
            } else {
                Ok(())
            },
        }
    }

    /// The position of the entry of `bounty_id`, or the number of entries if
    /// it has none.
    pub open spec fn index_of(self, bounty_id: u64) -> int {
        first_index(self.entries, |e: EscrowWithId| e.bounty_id == bounty_id)
    }

    /// Whether `bounty_id` has an entry.
    pub open spec fn has(self, bounty_id: u64) -> bool {
        self.index_of(bounty_id) < self.entries.len()
    }

    /// The entry of `bounty_id`.
    pub open spec fn entry(self, bounty_id: u64) -> Escrow
        recommends
            self.has(bounty_id),
    {
        self.entries[self.index_of(bounty_id)].escrow
    }

    /// The state with `next` in place of the entry at `i`, of which
    /// `released` went to a contributor and `refunded` went back.
    pub open spec fn with_entry(self, i: int, next: Escrow, released: int, refunded: int) -> BountyState {
        let prev = self.entries[i];
        BountyState {
            entries: self.entries.update(i, EscrowWithId { bounty_id: prev.bounty_id, escrow: next }),
            stats: self.stats.shifted(prev.escrow.status, next.status, released, refunded),
            ..self
        }
    }

    /// Setting the engine up with its administrator and its token. Fails
    /// with `AlreadyInitialized` the second time.
    pub open spec fn init(self, admin: Address, token: Address) -> Result<
        (BountyState, OutcomeView<()>),
        Error,
    > {
        if self.guard.entered {
            Err(Error::Reentrancy)
        } else if self.admin is Some {
            Err(Error::AlreadyInitialized)
        } else {
            Ok(
                (
                    BountyState { admin: Some(admin), token: Some(token), ..self },
                    outcome_of((), Seq::empty(), EventView::Initialized { admin, token }),
                ),
            )
        }
    }

    /// Locking `amount` for `bounty_id` until `deadline`. `caller` must be
    /// `depositor`; `amount` must not be negative (0 is accepted);
    /// `bounty_id` must be free, else `AlreadyExists`; `Overflow` if the sum
    /// of all that was ever locked would leave the 128-bit range.
    pub open spec fn lock_funds(
        self,
        caller: Address,
        depositor: Address,
        bounty_id: u64,
        amount: i128,
        deadline: u64,
    ) -> Result<(BountyState, OutcomeView<()>), Error> {
        match self.gate(self.pause.lock_paused) {
            Err(e) => Err(e),
            Ok(_) => if caller != depositor {
                Err(Error::Unauthorized)
            } else if amount < 0 {
                Err(Error::InvalidAmount)
            } else if self.has(bounty_id) {
                Err(Error::AlreadyExists)
            } else if amount_sum(self.entries) + amount > i128::MAX {
                Err(Error::Overflow)
            } else {
                Ok(
                    (
                        BountyState {
                            entries: self.entries.push(
                                EscrowWithId {
                                    bounty_id,
                                    escrow: Escrow::locked(depositor, amount, deadline),
                                },
                            ),
                            stats: AggregateStats {
                                count_locked: (self.stats.count_locked + 1) as u64,
                                total_locked: (self.stats.total_locked + amount) as i128,
                                ..self.stats
                            },
                            ..self
                        },
                        outcome_of(
                            (),
                            seq![Transfer { from: depositor, to: self.contract_address, amount }],
                            EventView::Locked { bounty_id, depositor, amount, deadline },
                        ),
                    ),
                )
            },
        }
    }
}

/// Replacing an entry by one that conforms, with the same locked amount and
/// with what it no longer holds booked as released or refunded, keeps the
/// state well formed.
pub proof fn lemma_with_entry(s: BountyState, i: int, next: Escrow, released: int, refunded: int)
    requires
        s.wf(),
        0 <= i < s.entries.len(),
        next.wf(),
        next.amount == s.entries[i].escrow.amount,
        released >= 0,
        refunded >= 0,
        next.remaining_amount == s.entries[i].escrow.remaining_amount - released - refunded,
    ensures
        s.with_entry(i, next, released, refunded).wf(),
        s.stats.count_locked >= one_if(s.entries[i].escrow.status, EscrowStatus::Locked),
        s.stats.count_released >= one_if(s.entries[i].escrow.status, EscrowStatus::Released),
        s.stats.count_refunded >= one_if(s.entries[i].escrow.status, EscrowStatus::Refunded),
        s.stats.count_partially_refunded >= one_if(
            s.entries[i].escrow.status,
            EscrowStatus::PartiallyRefunded,
        ),
        s.stats.total_locked >= released + refunded,
        s.stats.total_released + released <= i128::MAX,
        s.stats.total_refunded + refunded <= i128::MAX,
{
    let prev = s.entries[i];
    let entry = EscrowWithId { bounty_id: prev.bounty_id, escrow: next };
    let after = s.with_entry(i, next, released, refunded);
    lemma_total_update(s.entries, i, entry, share_amount());
    lemma_total_update(s.entries, i, entry, share_remaining());
    lemma_total_update(s.entries, i, entry, share_status(EscrowStatus::Locked));
    lemma_total_update(s.entries, i, entry, share_status(EscrowStatus::Released));
    lemma_total_update(s.entries, i, entry, share_status(EscrowStatus::Refunded));
    lemma_total_update(s.entries, i, entry, share_status(EscrowStatus::PartiallyRefunded));
    lemma_total_bounds(s.entries, share_status(EscrowStatus::Locked));
    lemma_total_bounds(s.entries, share_status(EscrowStatus::Released));
    lemma_total_bounds(s.entries, share_status(EscrowStatus::Refunded));
    lemma_total_bounds(s.entries, share_status(EscrowStatus::PartiallyRefunded));
    assert forall|k: int| 0 <= k < s.entries.len() implies share_remaining()(
        #[trigger] s.entries[k],
    ) >= 0 by {
        assert(s.entries[k].escrow.wf());
    }
    lemma_total_bounds(s.entries, share_remaining());
    assert(share_remaining()(s.entries[i]) <= remaining_sum(s.entries));
    assert(share_status(EscrowStatus::Locked)(s.entries[i]) == one_if(
        prev.escrow.status,
        EscrowStatus::Locked,
    ));
    assert(share_status(EscrowStatus::Released)(s.entries[i]) == one_if(
        prev.escrow.status,
        EscrowStatus::Released,
    ));
    assert(share_status(EscrowStatus::Refunded)(s.entries[i]) == one_if(
        prev.escrow.status,
        EscrowStatus::Refunded,
    ));
    assert(share_status(EscrowStatus::PartiallyRefunded)(s.entries[i]) == one_if(
        prev.escrow.status,
        EscrowStatus::PartiallyRefunded,
    ));
    assert forall|a: int, b: int| 0 <= a < b < after.entries.len() implies (
    #[trigger] after.entries[a]).bounty_id != (#[trigger] after.entries[b]).bounty_id by {
        assert(s.entries[a].bounty_id != s.entries[b].bounty_id);
    }
    assert forall|k: int| 0 <= k < after.entries.len() implies (
    #[trigger] after.entries[k]).escrow.wf() by {
        if k != i {
            assert(s.entries[k].escrow.wf());
        }
    }
    assert(share_amount()(entry) == share_amount()(s.entries[i]));
    assert(share_remaining()(entry) == share_remaining()(s.entries[i]) - released - refunded);
    assert(share_status(EscrowStatus::Locked)(entry) == one_if(next.status, EscrowStatus::Locked));
    assert(share_status(EscrowStatus::Released)(entry) == one_if(
        next.status,
        EscrowStatus::Released,
    ));
    assert(share_status(EscrowStatus::Refunded)(entry) == one_if(
        next.status,
        EscrowStatus::Refunded,
    ));
    assert(share_status(EscrowStatus::PartiallyRefunded)(entry) == one_if(
        next.status,
        EscrowStatus::PartiallyRefunded,
    ));
    assert(after.aggregates_hold());
}

impl BountyEscrowContract {
    /// A new engine that lives at `contract_address`, not yet set up.
    pub fn new(contract_address: Address) -> (c: BountyEscrowContract)
        ensures
            c@ == BountyState::initial(contract_address),
            c@.operable(),
    {
        let c = BountyEscrowContract {
            contract_address,
            guard: ReentrancyGuard::new(),
            pause: PauseFlags::new(),
            admin: None,
            token: None,
            entries: Vec::new(),
            stats: AggregateStats {
                count_locked: 0,
                count_released: 0,
                count_refunded: 0,
                count_partially_refunded: 0,
                total_locked: 0,
                total_released: 0,
                total_refunded: 0,
            },
            fee_config: FeeConfig::disabled(contract_address),
            claim_window: 0,
            metadata: Vec::new(),
            checks_disabled: false,
        };
        assert(c@.metadata =~= Seq::empty());
        c
    }

    fn pass_gate(&self, paused: bool) -> (r: Result<(), Error>)
        ensures
            r == self@.gate(paused),
    {
        if self.guard.entered {
            return Err(Error::Reentrancy);
        }
        if paused {
            return Err(Error::Paused);
        }
        if self.admin.is_none() {
            return Err(Error::NotInitialized);
        }
        Ok(())
    }

    fn pass_admin_gate(&self, paused: bool, caller: Address) -> (r: Result<(), Error>)
        ensures
            r == self@.admin_gate(paused, caller),
    {
        self.pass_gate(paused)?;
        match self.admin {
            Some(a) => if a == caller {
                Ok(())
            } else {
                Err(Error::Unauthorized)
            },
            None => Err(Error::Unauthorized),
        }
    }

    fn find(&self, bounty_id: u64) -> (i: usize)
        ensures
            i == self@.index_of(bounty_id),
            i <= self.entries.len(),
            self.entries.len() == self@.entries.len(),
            i < self.entries.len() ==> self.entries@[i as int].bounty_id == bounty_id,
    {
        let mut i: usize = 0;
        let ghost pred = |e: EscrowWithId| e.bounty_id == bounty_id;
        while i < self.entries.len()
            invariant
                i <= self.entries.len(),
                pred == (|e: EscrowWithId| e.bounty_id == bounty_id),
                forall|j: int| 0 <= j < i ==> !pred(self.entries@[j]),
            decreases self.entries.len() - i,
        {
            if self.entries[i].bounty_id == bounty_id {
                proof {
                    lemma_first_index_is(self.entries@, pred, i as int);
                }
                return i;
            }
            i = i + 1;
        }
        proof {
            lemma_first_index_is(self.entries@, pred, i as int);
        }
        i
    }

    /// Puts `next` in place of the entry at `i` and books what it no longer
    /// holds.
    fn settle(&mut self, i: usize, next: Escrow, released: i128, refunded: i128)
        requires
            old(self)@.wf(),
            i < old(self)@.entries.len(),
            next.wf(),
            next.amount == old(self)@.entries[i as int].escrow.amount,
            released >= 0,
            refunded >= 0,
            next.remaining_amount == old(self)@.entries[i as int].escrow.remaining_amount
                - released - refunded,
        ensures
            final(self)@ == old(self)@.with_entry(i as int, next, released as int, refunded as int),
            final(self)@.wf(),
    {
        proof {
            lemma_with_entry(self@, i as int, next, released as int, refunded as int);
        }
        let prev: EscrowWithId = self.entries[i];
        match prev.escrow.status {
            EscrowStatus::Locked => {
                self.stats.count_locked = self.stats.count_locked - 1;
            },
            EscrowStatus::Released => {
                self.stats.count_released = self.stats.count_released - 1;
            },
            EscrowStatus::Refunded => {
                self.stats.count_refunded = self.stats.count_refunded - 1;
            },
            EscrowStatus::PartiallyRefunded => {
                self.stats.count_partially_refunded = self.stats.count_partially_refunded - 1;
            },
        }
        match next.status {
            EscrowStatus::Locked => {
                self.stats.count_locked = self.stats.count_locked + 1;
            },
            EscrowStatus::Released => {
                self.stats.count_released = self.stats.count_released + 1;
            },
            EscrowStatus::Refunded => {
                self.stats.count_refunded = self.stats.count_refunded + 1;
            },
            EscrowStatus::PartiallyRefunded => {
                self.stats.count_partially_refunded = self.stats.count_partially_refunded + 1;
            },
        }
        self.stats.total_locked = self.stats.total_locked - released - refunded;
        self.stats.total_released = self.stats.total_released + released;
        self.stats.total_refunded = self.stats.total_refunded + refunded;
        self.entries.set(i, EscrowWithId { bounty_id: prev.bounty_id, escrow: next });
    }

    /// Sets the engine up.
    pub fn init(&mut self, admin: Address, token: Address) -> (r: Result<Outcome<()>, Error>)
        requires
            old(self)@.operable(),
        ensures
            final(self)@.operable(),
            agrees(r, old(self)@, final(self)@, old(self)@.init(admin, token)),
    {
        if self.guard.entered {
            return Err(Error::Reentrancy);
        }
        if self.admin.is_some() {
            return Err(Error::AlreadyInitialized);
        }
        self.admin = Some(admin);
        self.token = Some(token);
        Ok(Outcome::silent((), Event::Initialized { admin, token }))
    }

    /// Locks `amount` for `bounty_id`.
    pub fn lock_funds(
        &mut self,
        caller: Address,
        depositor: Address,
        bounty_id: u64,
        amount: i128,
        deadline: u64,
    ) -> (r: Result<Outcome<()>, Error>)
        requires
            old(self)@.operable(),
        ensures
            final(self)@.operable(),
            agrees(
                r,
                old(self)@,
                final(self)@,
                old(self)@.lock_funds(caller, depositor, bounty_id, amount, deadline),
            ),
    {
        self.pass_gate(self.pause.lock_paused)?;
        if caller != depositor {
            return Err(Error::Unauthorized);
        }
        if amount < 0 {
            return Err(Error::InvalidAmount);
        }
        let i: usize = self.find(bounty_id);
        if i < self.entries.len() {
            return Err(Error::AlreadyExists);
        }
        let ghost before = self@;
        proof {
            assert forall|k: int| 0 <= k < before.entries.len() implies share_remaining()(
                #[trigger] before.entries[k],
            ) >= 0 by {
                assert(before.entries[k].escrow.wf());
            }
            lemma_total_bounds(before.entries, share_remaining());
        }
        let deposited: i128 = self.stats.total_locked + self.stats.total_released
            + self.stats.total_refunded;
        if deposited > i128::MAX - amount {
            return Err(Error::Overflow);
        }
        let entry = EscrowWithId {
            bounty_id,
            escrow: Escrow {
                depositor,
                amount,
                remaining_amount: amount,
                deadline,
                status: EscrowStatus::Locked,
                pending_claim: None,
                partial_refund_approval: None,
            },
        };
        proof {
            lemma_total_push(before.entries, entry, share_amount());
            lemma_total_push(before.entries, entry, share_remaining());
            lemma_total_push(before.entries, entry, share_status(EscrowStatus::Locked));
            lemma_total_push(before.entries, entry, share_status(EscrowStatus::Released));
            lemma_total_push(before.entries, entry, share_status(EscrowStatus::Refunded));
            lemma_total_push(before.entries, entry, share_status(EscrowStatus::PartiallyRefunded));
            lemma_first_index(before.entries, |e: EscrowWithId| e.bounty_id == bounty_id);
        }
        self.entries.push(entry);
        assert(before.stats.count_locked <= before.entries.len());
        assert(self.entries.len() == before.entries.len() + 1);
        assert(self.entries.len() <= usize::MAX);
        self.stats.count_locked = self.stats.count_locked + 1;
        self.stats.total_locked = self.stats.total_locked + amount;
        proof {
            let after = self@;
            assert forall|a: int, b: int| 0 <= a < b < after.entries.len() implies (
            #[trigger] after.entries[a]).bounty_id != (#[trigger] after.entries[b]).bounty_id by {
                if b < before.entries.len() {
                    assert(before.entries[a].bounty_id != before.entries[b].bounty_id);
                }
            }
            assert forall|k: int| 0 <= k < after.entries.len() implies (
            #[trigger] after.entries[k]).escrow.wf() by {
                if k < before.entries.len() {
                    assert(before.entries[k].escrow.wf());
                }
            }
        }
        Ok(
            Outcome::single(
                (),
                Transfer { from: depositor, to: self.contract_address, amount },
                Event::Locked { bounty_id, depositor, amount, deadline },
            ),
        )
    }
}

impl Escrow {
    /// The entry after all that it held went to a contributor.
    pub open spec fn released(self) -> Escrow {
        Escrow {
            remaining_amount: 0,
            status: EscrowStatus::Released,
            pending_claim: None,
            partial_refund_approval: None,
            ..self
        }
    }

    /// The entry after `amount` of what it held went to a contributor: it
    /// stays locked, and what was pending is void.
    pub open spec fn after_partial_release(self, amount: i128) -> Escrow {
        Escrow {
            remaining_amount: (self.remaining_amount - amount) as i128,
            pending_claim: None,
            partial_refund_approval: None,
            ..self
        }
    }

    /// The entry after `amount` of what it held went back: refunded if
    /// nothing is left, partially refunded otherwise.
    pub open spec fn after_refund(self, amount: i128) -> Escrow {
        Escrow {
            remaining_amount: (self.remaining_amount - amount) as i128,
            status: if self.remaining_amount == amount {
                EscrowStatus::Refunded
            } else {
                EscrowStatus::PartiallyRefunded
            },
            pending_claim: None,
            partial_refund_approval: None,
            ..self
        }
    }

    /// Whether a refund can still be made from the entry.
    pub open spec fn refundable(self) -> bool {
        self.status == EscrowStatus::Locked || self.status == EscrowStatus::PartiallyRefunded
    }

    /// What an approved refund returns: all that is held in mode `Full`,
    /// the approved amount in mode `Partial`.
    pub open spec fn approved_amount(self, approval: RefundApproval) -> i128 {
        if approval.mode == RefundMode::Full {
            self.remaining_amount
        } else {
            approval.amount
        }
    }
}

impl BountyState {
    /// Paying all that `bounty_id` holds to `contributor`. `caller` must be
    /// the administrator; the entry must be locked, else `FundsNotLocked`.
    /// The deadline plays no part.
    pub open spec fn release_funds(self, caller: Address, bounty_id: u64, contributor: Address) -> Result<
        (BountyState, OutcomeView<()>),
        Error,
    > {
        match self.admin_gate(self.pause.release_paused, caller) {
            Err(e) => Err(e),
            Ok(_) => if !self.has(bounty_id) {
                Err(Error::NotFound)
            } else {
                let e = self.entry(bounty_id);
                if e.status != EscrowStatus::Locked {
                    Err(Error::FundsNotLocked)
                } else {
                    Ok(
                        (
                            self.with_entry(
                                self.index_of(bounty_id),
                                e.released(),
                                e.remaining_amount as int,
                                0,
                            ),
                            outcome_of(
                                (),
                                seq![
                                    Transfer {
                                        from: self.contract_address,
                                        to: contributor,
                                        amount: e.remaining_amount,
                                    },
                                ],
                                EventView::Released {
                                    bounty_id,
                                    recipient: contributor,
                                    amount: e.remaining_amount,
                                    remaining: 0,
                                },
                            ),
                        ),
                    )
                }
            },
        }
    }

    /// Paying `amount` of what `bounty_id` holds to `contributor`. `caller`
    /// must be the administrator and the entry locked; `amount` must be
    /// positive (`InvalidAmount`) and within what is held
    /// (`InsufficientBalance`). The entry stays locked.
    pub open spec fn partial_release(
        self,
        caller: Address,
        bounty_id: u64,
        contributor: Address,
        amount: i128,
    ) -> Result<(BountyState, OutcomeView<()>), Error> {
        match self.admin_gate(self.pause.release_paused, caller) {
            Err(e) => Err(e),
            Ok(_) => if !self.has(bounty_id) {
                Err(Error::NotFound)
            } else {
                let e = self.entry(bounty_id);
                if e.status != EscrowStatus::Locked {
                    Err(Error::FundsNotLocked)
                } else if amount <= 0 {
                    Err(Error::InvalidAmount)
                } else if amount > e.remaining_amount {
                    Err(Error::InsufficientBalance)
                } else {
                    Ok(
                        (
                            self.with_entry(
                                self.index_of(bounty_id),
                                e.after_partial_release(amount),
                                amount as int,
                                0,
                            ),
                            outcome_of(
                                (),
                                seq![
                                    Transfer {
                                        from: self.contract_address,
                                        to: contributor,
                                        amount,
                                    },
                                ],
                                EventView::Released {
                                    bounty_id,
                                    recipient: contributor,
                                    amount,
                                    remaining: (e.remaining_amount - amount) as i128,
                                },
                            ),
                        ),
                    )
                }
            },
        }
    }

    /// Returning funds of `bounty_id`; anybody may ask. From the deadline on
    /// all that is held goes back to the depositor. Before the deadline only
    /// an approved refund is made, to the approved recipient; without an
    /// approval the call fails with `DeadlineNotPassed`. An entry that is
    /// released or refunded gives `FundsNotLocked`.
    pub open spec fn refund(self, bounty_id: u64, now: u64) -> Result<
        (BountyState, OutcomeView<()>),
        Error,
    > {
        match self.gate(self.pause.refund_paused) {
            Err(e) => Err(e),
            Ok(_) => if !self.has(bounty_id) {
                Err(Error::NotFound)
            } else {
                let e = self.entry(bounty_id);
                let i = self.index_of(bounty_id);
                if !e.refundable() {
                    Err(Error::FundsNotLocked)
                } else if now >= e.deadline {
                    Ok(
                        (
                            self.with_entry(
                                i,
                                e.after_refund(e.remaining_amount),
                                0,
                                e.remaining_amount as int,
                            ),
                            outcome_of(
                                (),
                                seq![
                                    Transfer {
                                        from: self.contract_address,
                                        to: e.depositor,
                                        amount: e.remaining_amount,
                                    },
                                ],
                                EventView::Refunded {
                                    bounty_id,
                                    recipient: e.depositor,
                                    amount: e.remaining_amount,
                                },
                            ),
                        ),
                    )
                } else {
                    match e.partial_refund_approval {
                        None => Err(Error::DeadlineNotPassed),
                        Some(approval) => {
                            let amount = e.approved_amount(approval);
                            let left = (e.remaining_amount - amount) as i128;
                            Ok(
                                (
                                    self.with_entry(i, e.after_refund(amount), 0, amount as int),
                                    outcome_of(
                                        (),
                                        seq![
                                            Transfer {
                                                from: self.contract_address,
                                                to: approval.recipient,
                                                amount,
                                            },
                                        ],
                                        if left == 0 {
                                            EventView::Refunded {
                                                bounty_id,
                                                recipient: approval.recipient,
                                                amount,
                                            }
                                        } else {
                                            EventView::PartiallyRefunded {
                                                bounty_id,
                                                recipient: approval.recipient,
                                                amount,
                                                remaining: left,
                                            }
                                        },
                                    ),
                                ),
                            )
                        },
                    }
                }
            },
        }
    }

    /// The administrator's consent to return `amount` of `bounty_id` to `to`
    /// before the deadline. The entry must be locked and `amount` positive
    /// and within what is held. A later consent replaces an earlier one.
    pub open spec fn approve_refund(
        self,
        caller: Address,
        bounty_id: u64,
        amount: i128,
        to: Address,
        mode: RefundMode,
    ) -> Result<BountyState, Error> {
        match self.admin_gate(false, caller) {
            Err(e) => Err(e),
            Ok(_) => if !self.has(bounty_id) {
                Err(Error::NotFound)
            } else {
                let e = self.entry(bounty_id);
                if e.status != EscrowStatus::Locked {
                    Err(Error::FundsNotLocked)
                } else if amount <= 0 || amount > e.remaining_amount {
                    Err(Error::InvalidAmount)
                } else {
                    Ok(
                        self.with_entry(
                            self.index_of(bounty_id),
                            Escrow {
                                partial_refund_approval: Some(
                                    RefundApproval { amount, recipient: to, mode },
                                ),
                                ..e
                            },
                            0,
                            0,
                        ),
                    )
                }
            },
        }
    }

    /// Naming `claimant` as the one who may collect all that `bounty_id`
    /// holds, until the claim window has run out. The entry must be locked.
    /// A later call replaces the claimant of an earlier one.
    pub open spec fn authorize_claim(self, caller: Address, bounty_id: u64, claimant: Address, now: u64) -> Result<
        (BountyState, OutcomeView<()>),
        Error,
    > {
        match self.admin_gate(false, caller) {
            Err(e) => Err(e),
            Ok(_) => if !self.has(bounty_id) {
                Err(Error::NotFound)
            } else {
                let e = self.entry(bounty_id);
                if e.status != EscrowStatus::Locked {
                    Err(Error::FundsNotLocked)
                } else if now + self.claim_window > u64::MAX {
                    Err(Error::Overflow)
                } else {
                    let claim = PendingClaim {
                        recipient: claimant,
                        amount: e.remaining_amount,
                        expires_at: (now + self.claim_window) as u64,
                    };
                    Ok(
                        (
                            self.with_entry(
                                self.index_of(bounty_id),
                                Escrow { pending_claim: Some(claim), ..e },
                                0,
                                0,
                            ),
                            outcome_of(
                                (),
                                Seq::empty(),
                                EventView::ClaimAuthorized {
                                    bounty_id,
                                    claimant,
                                    amount: claim.amount,
                                    expires_at: claim.expires_at,
                                },
                            ),
                        ),
                    )
                }
            },
        }
    }

    /// Collecting a claim. The entry must be locked, else `FundsNotLocked`;
    /// a claim must be pending, else `NotFound`; `caller` must be its
    /// recipient and the claim not have run out, else `Unauthorized`. All
    /// that is held goes to the recipient and the entry is released.
    pub open spec fn claim(self, caller: Address, bounty_id: u64, now: u64) -> Result<
        (BountyState, OutcomeView<()>),
        Error,
    > {
        match self.gate(self.pause.release_paused) {
            Err(e) => Err(e),
            Ok(_) => if !self.has(bounty_id) {
                Err(Error::NotFound)
            } else {
                let e = self.entry(bounty_id);
                if e.status != EscrowStatus::Locked {
                    Err(Error::FundsNotLocked)
                } else {
                    match e.pending_claim {
                        None => Err(Error::NotFound),
                        Some(c) => if caller != c.recipient || now > c.expires_at {
                            Err(Error::Unauthorized)
                        } else {
                            Ok(
                                (
                                    self.with_entry(
                                        self.index_of(bounty_id),
                                        e.released(),
                                        e.remaining_amount as int,
                                        0,
                                    ),
                                    outcome_of(
                                        (),
                                        seq![
                                            Transfer {
                                                from: self.contract_address,
                                                to: c.recipient,
                                                amount: e.remaining_amount,
                                            },
                                        ],
                                        EventView::Claimed {
                                            bounty_id,
                                            recipient: c.recipient,
                                            amount: e.remaining_amount,
                                        },
                                    ),
                                ),
                            )
                        },
                    }
                }
            },
        }
    }

    /// Setting the length of the claim window, in seconds.
    pub open spec fn set_claim_window(self, caller: Address, seconds: u64) -> Result<
        BountyState,
        Error,
    > {
        match self.admin_gate(false, caller) {
            Err(e) => Err(e),
            Ok(_) => Ok(BountyState { claim_window: seconds, ..self }),
        }
    }

    /// Setting the pause flags that are given.
    pub open spec fn set_paused(
        self,
        caller: Address,
        lock: Option<bool>,
        release: Option<bool>,
        refund: Option<bool>,
    ) -> Result<(BountyState, OutcomeView<()>), Error> {
        match self.admin_gate(false, caller) {
            Err(e) => Err(e),
            Ok(_) => {
                let flags = self.pause.with(lock, release, refund);
                Ok(
                    (
                        BountyState { pause: flags, ..self },
                        outcome_of((), Seq::empty(), EventView::PauseSet { flags }),
                    ),
                )
            },
        }
    }

    /// Changing the fee configuration: every rate that `change` names must
    /// lie within bounds, else `InvalidFeeRate`.
    pub open spec fn update_fee_config(self, caller: Address, change: FeeUpdate) -> Result<
        (BountyState, OutcomeView<()>),
        Error,
    > {
        match self.admin_gate(false, caller) {
            Err(e) => Err(e),
            Ok(_) => if !change.acceptable() {
                Err(Error::InvalidFeeRate)
            } else {
                let config = self.fee_config.with(change);
                Ok(
                    (
                        BountyState { fee_config: config, ..self },
                        outcome_of((), Seq::empty(), EventView::FeeUpdated { config }),
                    ),
                )
            },
        }
    }
}

impl BountyEscrowContract {
    /// Pays all that `bounty_id` holds to `contributor`.
    pub fn release_funds(&mut self, caller: Address, bounty_id: u64, contributor: Address) -> (r:
        Result<Outcome<()>, Error>)
        requires
            old(self)@.operable(),
        ensures
            final(self)@.operable(),
            agrees(
                r,
                old(self)@,
                final(self)@,
                old(self)@.release_funds(caller, bounty_id, contributor),
            ),
    {
        self.pass_admin_gate(self.pause.release_paused, caller)?;
        let i: usize = self.find(bounty_id);
        if i >= self.entries.len() {
            return Err(Error::NotFound);
        }
        let e: Escrow = self.entries[i].escrow;
        match e.status {
            EscrowStatus::Locked => {},
            _ => {
                return Err(Error::FundsNotLocked);
            },
        }
        assert(self@.entries[i as int].escrow.wf());
        let amount: i128 = e.remaining_amount;
        let next = Escrow {
            depositor: e.depositor,
            amount: e.amount,
            remaining_amount: 0,
            deadline: e.deadline,
            status: EscrowStatus::Released,
            pending_claim: None,
            partial_refund_approval: None,
        };
        self.settle(i, next, amount, 0);
        Ok(
            Outcome::single(
                (),
                Transfer { from: self.contract_address, to: contributor, amount },
                Event::Released { bounty_id, recipient: contributor, amount, remaining: 0 },
            ),
        )
    }

    /// Pays `amount` of what `bounty_id` holds to `contributor`.
    pub fn partial_release(
        &mut self,
        caller: Address,
        bounty_id: u64,
        contributor: Address,
        amount: i128,
    ) -> (r: Result<Outcome<()>, Error>)
        requires
            old(self)@.operable(),
        ensures
            final(self)@.operable(),
            agrees(
                r,
                old(self)@,
                final(self)@,
                old(self)@.partial_release(caller, bounty_id, contributor, amount),
            ),
    {
        self.pass_admin_gate(self.pause.release_paused, caller)?;
        let i: usize = self.find(bounty_id);
        if i >= self.entries.len() {
            return Err(Error::NotFound);
        }
        let e: Escrow = self.entries[i].escrow;
        match e.status {
            EscrowStatus::Locked => {},
            _ => {
                return Err(Error::FundsNotLocked);
            },
        }
        if amount <= 0 {
            return Err(Error::InvalidAmount);
        }
        if amount > e.remaining_amount {
            return Err(Error::InsufficientBalance);
        }
        assert(self@.entries[i as int].escrow.wf());
        let left: i128 = e.remaining_amount - amount;
        let next = Escrow {
            depositor: e.depositor,
            amount: e.amount,
            remaining_amount: left,
            deadline: e.deadline,
            status: e.status,
            pending_claim: None,
            partial_refund_approval: None,
        };
        self.settle(i, next, amount, 0);
        Ok(
            Outcome::single(
                (),
                Transfer { from: self.contract_address, to: contributor, amount },
                Event::Released { bounty_id, recipient: contributor, amount, remaining: left },
            ),
        )
    }

    /// Returns funds of `bounty_id`: all that is held from the deadline on,
    /// what was approved before.
    pub fn refund(&mut self, bounty_id: u64, now: u64) -> (r: Result<Outcome<()>, Error>)
        requires
            old(self)@.operable(),
        ensures
            final(self)@.operable(),
            agrees(r, old(self)@, final(self)@, old(self)@.refund(bounty_id, now)),
    {
        self.pass_gate(self.pause.refund_paused)?;
        let i: usize = self.find(bounty_id);
        if i >= self.entries.len() {
            return Err(Error::NotFound);
        }
        let e: Escrow = self.entries[i].escrow;
        match e.status {
            EscrowStatus::Locked => {},
            EscrowStatus::PartiallyRefunded => {},
            _ => {
                return Err(Error::FundsNotLocked);
            },
        }
        assert(self@.entries[i as int].escrow.wf());
        let mut amount: i128 = e.remaining_amount;
        let mut recipient: Address = e.depositor;
        if now < e.deadline {
            match e.partial_refund_approval {
                None => {
                    return Err(Error::DeadlineNotPassed);
                },
                Some(approval) => {
                    recipient = approval.recipient;
                    match approval.mode {
                        RefundMode::Full => {},
                        RefundMode::Partial => {
                            amount = approval.amount;
                        },
                    }
                },
            }
        }
        let left: i128 = e.remaining_amount - amount;
        let next = Escrow {
            depositor: e.depositor,
            amount: e.amount,
            remaining_amount: left,
            deadline: e.deadline,
            status: if left == 0 {
                EscrowStatus::Refunded
            } else {
                EscrowStatus::PartiallyRefunded
            },
            pending_claim: None,
            partial_refund_approval: None,
        };
        self.settle(i, next, 0, amount);
        let transfer = Transfer { from: self.contract_address, to: recipient, amount };
        if left == 0 {
            Ok(Outcome::single((), transfer, Event::Refunded { bounty_id, recipient, amount }))
        } else {
            Ok(
                Outcome::single(
                    (),
                    transfer,
                    Event::PartiallyRefunded { bounty_id, recipient, amount, remaining: left },
                ),
            )
        }
    }

    /// Records the administrator's consent to a refund before the deadline.
    pub fn approve_refund(
        &mut self,
        caller: Address,
        bounty_id: u64,
        amount: i128,
        to: Address,
        mode: RefundMode,
    ) -> (r: Result<(), Error>)
        requires
            old(self)@.operable(),
        ensures
            final(self)@.operable(),
            agrees_plain(
                r,
                old(self)@,
                final(self)@,
                old(self)@.approve_refund(caller, bounty_id, amount, to, mode),
            ),
    {
        self.pass_admin_gate(false, caller)?;
        let i: usize = self.find(bounty_id);
        if i >= self.entries.len() {
            return Err(Error::NotFound);
        }
        let e: Escrow = self.entries[i].escrow;
        match e.status {
            EscrowStatus::Locked => {},
            _ => {
                return Err(Error::FundsNotLocked);
            },
        }
        if amount <= 0 || amount > e.remaining_amount {
            return Err(Error::InvalidAmount);
        }
        assert(self@.entries[i as int].escrow.wf());
        let next = Escrow {
            depositor: e.depositor,
            amount: e.amount,
            remaining_amount: e.remaining_amount,
            deadline: e.deadline,
            status: e.status,
            pending_claim: e.pending_claim,
            partial_refund_approval: Some(RefundApproval { amount, recipient: to, mode }),
        };
        self.settle(i, next, 0, 0);
        Ok(())
    }

    /// Names the claimant of `bounty_id`.
    pub fn authorize_claim(&mut self, caller: Address, bounty_id: u64, claimant: Address, now: u64) -> (r:
        Result<Outcome<()>, Error>)
        requires
            old(self)@.operable(),
        ensures
            final(self)@.operable(),
            agrees(
                r,
                old(self)@,
                final(self)@,
                old(self)@.authorize_claim(caller, bounty_id, claimant, now),
            ),
    {
        self.pass_admin_gate(false, caller)?;
        let i: usize = self.find(bounty_id);
        if i >= self.entries.len() {
            return Err(Error::NotFound);
        }
        let e: Escrow = self.entries[i].escrow;
        match e.status {
            EscrowStatus::Locked => {},
            _ => {
                return Err(Error::FundsNotLocked);
            },
        }
        if now > u64::MAX - self.claim_window {
            return Err(Error::Overflow);
        }
        assert(self@.entries[i as int].escrow.wf());
        let claim = PendingClaim {
            recipient: claimant,
            amount: e.remaining_amount,
            expires_at: now + self.claim_window,
        };
        let next = Escrow {
            depositor: e.depositor,
            amount: e.amount,
            remaining_amount: e.remaining_amount,
            deadline: e.deadline,
            status: e.status,
            pending_claim: Some(claim),
            partial_refund_approval: e.partial_refund_approval,
        };
        self.settle(i, next, 0, 0);
        Ok(
            Outcome::silent(
                (),
                Event::ClaimAuthorized {
                    bounty_id,
                    claimant,
                    amount: claim.amount,
                    expires_at: claim.expires_at,
                },
            ),
        )
    }

    /// Collects the claim on `bounty_id` for `caller`.
    pub fn claim(&mut self, caller: Address, bounty_id: u64, now: u64) -> (r: Result<
        Outcome<()>,
        Error,
    >)
        requires
            old(self)@.operable(),
        ensures
            final(self)@.operable(),
            agrees(r, old(self)@, final(self)@, old(self)@.claim(caller, bounty_id, now)),
    {
        self.pass_gate(self.pause.release_paused)?;
        let i: usize = self.find(bounty_id);
        if i >= self.entries.len() {
            return Err(Error::NotFound);
        }
        let e: Escrow = self.entries[i].escrow;
        match e.status {
            EscrowStatus::Locked => {},
            _ => {
                return Err(Error::FundsNotLocked);
            },
        }
        let c: PendingClaim = match e.pending_claim {
            None => {
                return Err(Error::NotFound);
            },
            Some(c) => c,
        };
        if caller != c.recipient || now > c.expires_at {
            return Err(Error::Unauthorized);
        }
        assert(self@.entries[i as int].escrow.wf());
        let amount: i128 = e.remaining_amount;
        let next = Escrow {
            depositor: e.depositor,
            amount: e.amount,
            remaining_amount: 0,
            deadline: e.deadline,
            status: EscrowStatus::Released,
            pending_claim: None,
            partial_refund_approval: None,
        };
        self.settle(i, next, amount, 0);
        Ok(
            Outcome::single(
                (),
                Transfer { from: self.contract_address, to: c.recipient, amount },
                Event::Claimed { bounty_id, recipient: c.recipient, amount },
            ),
        )
    }

    /// Sets the length of the claim window, in seconds.
    pub fn set_claim_window(&mut self, caller: Address, seconds: u64) -> (r: Result<(), Error>)
        requires
            old(self)@.operable(),
        ensures
            final(self)@.operable(),
            agrees_plain(r, old(self)@, final(self)@, old(self)@.set_claim_window(caller, seconds)),
    {
        self.pass_admin_gate(false, caller)?;
        self.claim_window = seconds;
        Ok(())
    }

    /// Sets the pause flags that are given and keeps the others.
    pub fn set_paused(
        &mut self,
        caller: Address,
        lock: Option<bool>,
        release: Option<bool>,
        refund: Option<bool>,
    ) -> (r: Result<Outcome<()>, Error>)
        requires
            old(self)@.operable(),
        ensures
            final(self)@.operable(),
            agrees(
                r,
                old(self)@,
                final(self)@,
                old(self)@.set_paused(caller, lock, release, refund),
            ),
    {
        self.pass_admin_gate(false, caller)?;
        self.pause.apply(lock, release, refund);
        Ok(Outcome::silent((), Event::PauseSet { flags: self.pause }))
    }

    /// Changes the fee configuration, or fails with `InvalidFeeRate` and
    /// leaves it as it is.
    pub fn update_fee_config(
        &mut self,
        caller: Address,
        lock_fee_rate: Option<i128>,
        release_fee_rate: Option<i128>,
        fee_recipient: Option<Address>,
        fee_enabled: Option<bool>,
    ) -> (r: Result<Outcome<()>, Error>)
        requires
            old(self)@.operable(),
        ensures
            final(self)@.operable(),
            agrees(
                r,
                old(self)@,
                final(self)@,
                old(self)@.update_fee_config(
                    caller,
                    FeeUpdate {
                        lock_fee_rate,
                        release_fee_rate,
                        payout_fee_rate: None,
                        fee_recipient,
                        fee_enabled,
                    },
                ),
            ),
    {
        self.pass_admin_gate(false, caller)?;
        self.fee_config.update(
            FeeUpdate {
                lock_fee_rate,
                release_fee_rate,
                payout_fee_rate: None,
                fee_recipient,
                fee_enabled,
            },
        )?;
        Ok(Outcome::silent((), Event::FeeUpdated { config: self.fee_config }))
    }

    /// The fee configuration.
    pub fn get_fee_config(&self) -> (c: FeeConfig)
        ensures
            c == self@.fee_config,
    {
        self.fee_config
    }

    /// The pause flags.
    pub fn get_pause_flags(&self) -> (f: PauseFlags)
        ensures
            f == self@.pause,
    {
        self.pause
    }

    /// The length of the claim window, in seconds.
    pub fn get_claim_window(&self) -> (w: u64)
        ensures
            w == self@.claim_window,
    {
        self.claim_window
    }

    /// The administrator, once the engine is set up.
    pub fn get_admin(&self) -> (a: Option<Address>)
        ensures
            a == self@.admin,
    {
        self.admin
    }

    /// The token, once the engine is set up.
    pub fn get_token(&self) -> (t: Option<Address>)
        ensures
            t == self@.token,
    {
        self.token
    }

    /// The address at which the engine lives.
    pub fn get_contract_address(&self) -> (a: Address)
        ensures
            a == self@.contract_address,
    {
        self.contract_address
    }

    /// The entry of `bounty_id`, or `NotFound`.
    pub fn get_escrow_info(&self, bounty_id: u64) -> (r: Result<Escrow, Error>)
        ensures
            self@.has(bounty_id) ==> r == Ok::<Escrow, Error>(self@.entry(bounty_id)),
            !self@.has(bounty_id) ==> r == Err::<Escrow, Error>(Error::NotFound),
    {
        let i: usize = self.find(bounty_id);
        if i < self.entries.len() {
            Ok(self.entries[i].escrow)
        } else {
            Err(Error::NotFound)
        }
    }

    /// The claim that is pending on `bounty_id`, or `NotFound` if the bounty
    /// has no entry or no claim.
    pub fn get_pending_claim(&self, bounty_id: u64) -> (r: Result<PendingClaim, Error>)
        ensures
            match r {
                Ok(c) => self@.has(bounty_id) && self@.entry(bounty_id).pending_claim == Some(c),
                Err(e) => e == Error::NotFound && (!self@.has(bounty_id) || self@.entry(
                    bounty_id,
                ).pending_claim is None),
            },
    {
        let i: usize = self.find(bounty_id);
        if i < self.entries.len() {
            match self.entries[i].escrow.pending_claim {
                Some(c) => Ok(c),
                None => Err(Error::NotFound),
            }
        } else {
            Err(Error::NotFound)
        }
    }

    /// What the engine holds for all its bounties together.
    pub fn get_balance(&self) -> (b: i128)
        ensures
            b == self@.stats.total_locked,
    {
        self.stats.total_locked
    }

    /// The aggregate counters.
    pub fn get_aggregate_stats(&self) -> (s: AggregateStats)
        ensures
            s == self@.stats,
    {
        self.stats
    }

    /// Fails with `Reentrancy` exactly when a protected call is in flight.
    pub fn check_not_entered(&self) -> (r: Result<(), Error>)
        ensures
            r == (if self@.guard.entered {
                Err::<(), Error>(Error::Reentrancy)
            } else {
                Ok::<(), Error>(())
            }),
    {
        crate::reentrancy_guard::check_not_entered(&self.guard)
    }

    /// Marks a protected call as in flight.
    pub fn set_entered(&mut self)
        ensures
            final(self)@ == (BountyState { guard: ReentrancyGuard { entered: true }, ..old(self)@ }),
    {
        crate::reentrancy_guard::set_entered(&mut self.guard);
    }

    /// Marks the protected call as finished.
    pub fn clear_entered(&mut self)
        ensures
            final(self)@ == (BountyState { guard: ReentrancyGuard { entered: false }, ..old(self)@ }),
    {
        crate::reentrancy_guard::clear_entered(&mut self.guard);
    }

    /// Whether a protected call is in flight.
    pub fn is_entered(&self) -> (b: bool)
        ensures
            b == self@.guard.entered,
    {
        crate::reentrancy_guard::is_entered(&self.guard)
    }
}

/// A filter over the entries.
#[derive(Clone, Copy, Debug, PartialEq, Eq, Structural)]
#[allow(inconsistent_fields)]
pub enum EscrowFilter {
    /// Entries in one status.
    Status(EscrowStatus),
    /// Entries whose locked amount lies in `min ..= max`.
    Amount { min: i128, max: i128 },
    /// Entries whose deadline lies in `min ..= max`.
    Deadline { min: u64, max: u64 },
    /// Entries of one depositor.
    Depositor(Address),
}

impl Criterion<EscrowWithId> for EscrowFilter {
    open spec fn admits(&self, item: EscrowWithId) -> bool {
        match *self {
            EscrowFilter::Status(status) => item.escrow.status == status,
            EscrowFilter::Amount { min, max } => min <= item.escrow.amount <= max,
            EscrowFilter::Deadline { min, max } => min <= item.escrow.deadline <= max,
            EscrowFilter::Depositor(who) => item.escrow.depositor == who,
        }
    }

    fn test(&self, item: &EscrowWithId) -> (b: bool) {
        match *self {
            EscrowFilter::Status(status) => item.escrow.status == status,
            EscrowFilter::Amount { min, max } => min <= item.escrow.amount && item.escrow.amount
                <= max,
            EscrowFilter::Deadline { min, max } => min <= item.escrow.deadline
                && item.escrow.deadline <= max,
            EscrowFilter::Depositor(who) => item.escrow.depositor == who,
        }
    }
}

/// The identifiers of `entries`, in their order.
pub open spec fn ids_of(entries: Seq<EscrowWithId>) -> Seq<u64> {
    entries.map_values(|e: EscrowWithId| e.bounty_id)
}

impl BountyState {
    /// The checks that can be made at run time: no entry holds less than 0
    /// or more than was locked, the sum of what was locked fits into 128
    /// bits, and the aggregate counters say what a count over the entries
    /// says.
    pub open spec fn invariants_hold(self) -> bool {
        entries_agree(self.entries, self.stats)
    }

    /// Filing metadata for `bounty_id`, in place of what was filed before.
    pub open spec fn update_metadata(
        self,
        caller: Address,
        bounty_id: u64,
        repo_id: u64,
        issue_id: u64,
        bounty_type: Seq<char>,
    ) -> Result<BountyState, Error> {
        match self.admin_gate(false, caller) {
            Err(e) => Err(e),
            Ok(_) => {
                let m = MetadataView { bounty_id, repo_id, issue_id, bounty_type };
                let i = first_index(self.metadata, |x: MetadataView| x.bounty_id == bounty_id);
                Ok(
                    BountyState {
                        metadata: if i < self.metadata.len() {
                            self.metadata.update(i, m)
                        } else {
                            self.metadata.push(m)
                        },
                        ..self
                    },
                )
            },
        }
    }
}

/// Counts over the entries again and says whether the aggregate counters
/// agree and no entry holds less than 0 or more than was locked.
#[verifier::loop_isolation(false)]
pub fn entries_pass_checks(entries: &Vec<EscrowWithId>, stats: &AggregateStats) -> (ok: bool)
    ensures
        ok == entries_agree(entries@, *stats),
{
    let ghost all = entries@;
    let mut i: usize = 0;
    while i < entries.len()
        invariant
            i <= entries.len(),
            forall|k: int|
                0 <= k < i ==> 0 <= (#[trigger] all[k]).escrow.remaining_amount
                    <= all[k].escrow.amount,
        decreases entries.len() - i,
    {
        let e: Escrow = entries[i].escrow;
        if e.remaining_amount < 0 || e.remaining_amount > e.amount {
            return false;
        }
        i = i + 1;
    }
    let mut locked: u64 = 0;
    let mut released: u64 = 0;
    let mut refunded: u64 = 0;
    let mut partial: u64 = 0;
    let mut held: i128 = 0;
    let mut deposited: i128 = 0;
    let mut fits: bool = true;
    let mut i: usize = 0;
    assert(all.take(0) =~= Seq::<EscrowWithId>::empty());
    proof {
        assert forall|k: int| 0 <= k < all.len() implies share_remaining()(#[trigger] all[k])
            >= 0 by {}
        assert forall|k: int| 0 <= k < all.len() implies share_amount()(#[trigger] all[k])
            >= 0 by {}
    }
    while i < entries.len()
        invariant
            i <= entries.len(),
            forall|k: int|
                0 <= k < all.len() ==> 0 <= (#[trigger] all[k]).escrow.remaining_amount
                    <= all[k].escrow.amount,
            locked == status_count(all.take(i as int), EscrowStatus::Locked),
            released == status_count(all.take(i as int), EscrowStatus::Released),
            refunded == status_count(all.take(i as int), EscrowStatus::Refunded),
            partial == status_count(all.take(i as int), EscrowStatus::PartiallyRefunded),
            locked + released + refunded + partial == i,
            fits ==> held == remaining_sum(all.take(i as int)),
            fits ==> deposited == amount_sum(all.take(i as int)),
            0 <= held <= deposited,
            !fits ==> amount_sum(all) > i128::MAX,
        decreases entries.len() - i,
    {
        let e: Escrow = entries[i].escrow;
        proof {
            assert(all.take(i as int + 1).drop_last() =~= all.take(i as int));
            assert(all.take(i as int + 1).last() == all[i as int]);
        }
        match e.status {
            EscrowStatus::Locked => {
                locked = locked + 1;
            },
            EscrowStatus::Released => {
                released = released + 1;
            },
            EscrowStatus::Refunded => {
                refunded = refunded + 1;
            },
            EscrowStatus::PartiallyRefunded => {
                partial = partial + 1;
            },
        }
        if fits {
            if deposited > i128::MAX - e.amount {
                fits = false;
                proof {
                    lemma_amount_sum_grows(all, i as int + 1);
                }
            } else {
                deposited = deposited + e.amount;
                held = held + e.remaining_amount;
            }
        }
        i = i + 1;
    }
    assert(all.take(i as int) =~= all);
    if !fits {
        return false;
    }
    if locked != stats.count_locked || released != stats.count_released || refunded
        != stats.count_refunded || partial != stats.count_partially_refunded {
        return false;
    }
    if held != stats.total_locked {
        return false;
    }
    if stats.total_released < 0 || stats.total_refunded < 0 {
        return false;
    }
    let rest: i128 = deposited - held;
    if stats.total_released > rest {
        return false;
    }
    stats.total_refunded == rest - stats.total_released
}

impl BountyEscrowContract {
    /// A page of the entries under `filter`, in the order in which the
    /// bounties were locked.
    pub fn query_escrows(&self, filter: EscrowFilter, offset: u32, limit: u32) -> (page: Vec<
        EscrowWithId,
    >)
        ensures
            page@ == page_of(matching(self@.entries, filter), offset as nat, limit as nat),
    {
        select_page(&self.entries, &filter, offset, limit)
    }

    /// A page of the entries in `status`.
    pub fn query_escrows_by_status(&self, status: EscrowStatus, offset: u32, limit: u32) -> (page:
        Vec<EscrowWithId>)
        ensures
            page@ == page_of(
                matching(self@.entries, EscrowFilter::Status(status)),
                offset as nat,
                limit as nat,
            ),
    {
        select_page(&self.entries, &EscrowFilter::Status(status), offset, limit)
    }

    /// A page of the entries whose locked amount lies in
    /// `min_amount ..= max_amount`.
    pub fn query_escrows_by_amount(
        &self,
        min_amount: i128,
        max_amount: i128,
        offset: u32,
        limit: u32,
    ) -> (page: Vec<EscrowWithId>)
        ensures
            page@ == page_of(
                matching(self@.entries, EscrowFilter::Amount { min: min_amount, max: max_amount }),
                offset as nat,
                limit as nat,
            ),
    {
        select_page(
            &self.entries,
            &EscrowFilter::Amount { min: min_amount, max: max_amount },
            offset,
            limit,
        )
    }

    /// A page of the entries whose deadline lies in
    /// `min_deadline ..= max_deadline`.
    pub fn query_escrows_by_deadline(
        &self,
        min_deadline: u64,
        max_deadline: u64,
        offset: u32,
        limit: u32,
    ) -> (page: Vec<EscrowWithId>)
        ensures
            page@ == page_of(
                matching(
                    self@.entries,
                    EscrowFilter::Deadline { min: min_deadline, max: max_deadline },
                ),
                offset as nat,
                limit as nat,
            ),
    {
        select_page(
            &self.entries,
            &EscrowFilter::Deadline { min: min_deadline, max: max_deadline },
            offset,
            limit,
        )
    }

    /// A page of the entries of `depositor`.
    pub fn query_escrows_by_depositor(&self, depositor: Address, offset: u32, limit: u32) -> (page:
        Vec<EscrowWithId>)
        ensures
            page@ == page_of(
                matching(self@.entries, EscrowFilter::Depositor(depositor)),
                offset as nat,
                limit as nat,
            ),
    {
        select_page(&self.entries, &EscrowFilter::Depositor(depositor), offset, limit)
    }

    /// The identifiers of a page of the entries in `status`.
    pub fn get_escrow_ids_by_status(&self, status: EscrowStatus, offset: u32, limit: u32) -> (ids:
        Vec<u64>)
        ensures
            ids@ == ids_of(
                page_of(
                    matching(self@.entries, EscrowFilter::Status(status)),
                    offset as nat,
                    limit as nat,
                ),
            ),
    {
        let page: Vec<EscrowWithId> = select_page(
            &self.entries,
            &EscrowFilter::Status(status),
            offset,
            limit,
        );
        let mut ids: Vec<u64> = Vec::new();
        let mut i: usize = 0;
        while i < page.len()
            invariant
                i <= page.len(),
                ids@ == ids_of(page@.take(i as int)),
            decreases page.len() - i,
        {
            ids.push(page[i].bounty_id);
            assert(ids@ =~= ids_of(page@.take(i as int + 1)));
            i = i + 1;
        }
        assert(page@.take(i as int) =~= page@);
        ids
    }

    /// Files metadata for `bounty_id`.
    pub fn update_metadata(
        &mut self,
        caller: Address,
        bounty_id: u64,
        repo_id: u64,
        issue_id: u64,
        bounty_type: String,
    ) -> (r: Result<(), Error>)
        requires
            old(self)@.operable(),
        ensures
            final(self)@.operable(),
            agrees_plain(
                r,
                old(self)@,
                final(self)@,
                old(self)@.update_metadata(caller, bounty_id, repo_id, issue_id, bounty_type@),
            ),
    {
        self.pass_admin_gate(false, caller)?;
        let ghost before = self@;
        let i: usize = self.find_metadata(bounty_id);
        let entry = MetadataEntry {
            bounty_id,
            metadata: EscrowMetadata { repo_id, issue_id, bounty_type },
        };
        proof {
            lemma_first_index(before.metadata, |x: MetadataView| x.bounty_id == bounty_id);
        }
        if i < self.metadata.len() {
            self.metadata.set(i, entry);
            assert(metadata_views(self.metadata@) =~= before.metadata.update(i as int, entry@));
        } else {
            self.metadata.push(entry);
            assert(metadata_views(self.metadata@) =~= before.metadata.push(entry@));
        }
        Ok(())
    }

    fn find_metadata(&self, bounty_id: u64) -> (i: usize)
        ensures
            i == first_index(self@.metadata, |x: MetadataView| x.bounty_id == bounty_id),
            i <= self.metadata.len(),
            self.metadata.len() == self@.metadata.len(),
    {
        let mut i: usize = 0;
        let ghost pred = |x: MetadataView| x.bounty_id == bounty_id;
        while i < self.metadata.len()
            invariant
                i <= self.metadata.len(),
                pred == (|x: MetadataView| x.bounty_id == bounty_id),
                self@.metadata == metadata_views(self.metadata@),
                forall|j: int| 0 <= j < i ==> !pred(self@.metadata[j]),
            decreases self.metadata.len() - i,
        {
            assert(self@.metadata[i as int] == self.metadata@[i as int]@);
            if self.metadata[i].bounty_id == bounty_id {
                proof {
                    lemma_first_index_is(self@.metadata, pred, i as int);
                }
                return i;
            }
            i = i + 1;
        }
        proof {
            lemma_first_index_is(self@.metadata, pred, i as int);
        }
        i
    }

    /// The metadata filed for `bounty_id`, or `NotFound`.
    pub fn get_metadata(&self, bounty_id: u64) -> (r: Result<EscrowMetadata, Error>)
        ensures
            ({
                let i = first_index(self@.metadata, |x: MetadataView| x.bounty_id == bounty_id);
                if i < self@.metadata.len() {
                    r is Ok && self@.metadata[i] == (MetadataView {
                        bounty_id,
                        repo_id: r->Ok_0.repo_id,
                        issue_id: r->Ok_0.issue_id,
                        bounty_type: r->Ok_0.bounty_type@,
                    })
                } else {
                    r is Err && r->Err_0 == Error::NotFound
                }
            }),
    {
        let i: usize = self.find_metadata(bounty_id);
        proof {
            lemma_first_index(self@.metadata, |x: MetadataView| x.bounty_id == bounty_id);
        }
        if i < self.metadata.len() {
            assert(self@.metadata[i as int] == self.metadata@[i as int]@);
            Ok(
                EscrowMetadata {
                    repo_id: self.metadata[i].metadata.repo_id,
                    issue_id: self.metadata[i].metadata.issue_id,
                    bounty_type: self.metadata[i].metadata.bounty_type.clone(),
                },
            )
        } else {
            Err(Error::NotFound)
        }
    }

    /// Counts over the entries again and says whether the aggregate counters
    /// agree and no entry holds less than 0 or more than was locked.
    pub fn check_invariants(&self) -> (ok: bool)
        ensures
            ok == self@.invariants_hold(),
    {
        entries_pass_checks(&self.entries, &self.stats)
    }

    /// Switches the invariant checks off or on. While they are off no
    /// mutator may be called.
    pub fn set_invariant_checks_disabled(&mut self, disabled: bool)
        ensures
            final(self)@ == (BountyState { checks_disabled: disabled, ..old(self)@ }),
    {
        self.checks_disabled = disabled;
    }

    /// Whether the invariant checks are switched off.
    pub fn invariant_checks_disabled(&self) -> (b: bool)
        ensures
            b == self@.checks_disabled,
    {
        self.checks_disabled
    }
}

/// Where no entry was locked with a negative amount, the sum over a part of
/// the entries from the start is at most the sum over all of them.
pub proof fn lemma_amount_sum_grows(entries: Seq<EscrowWithId>, n: int)
    requires
        0 <= n <= entries.len(),
        forall|k: int| 0 <= k < entries.len() ==> (#[trigger] entries[k]).escrow.amount >= 0,
    ensures
        amount_sum(entries.take(n)) <= amount_sum(entries),
    decreases entries.len() - n,
{
    if n < entries.len() {
        assert(entries.take(n + 1).drop_last() =~= entries.take(n));
        assert(entries.take(n + 1).last() == entries[n]);
        lemma_amount_sum_grows(entries, n + 1);
    } else {
        assert(entries.take(n) =~= entries);
    }
}

/// A well-formed state passes the run-time checks.
pub proof fn lemma_wf_passes_checks(s: BountyState)
    requires
        s.wf(),
    ensures
        s.invariants_hold(),
{
    assert forall|i: int| 0 <= i < s.entries.len() implies 0 <= (
    #[trigger] s.entries[i]).escrow.remaining_amount <= s.entries[i].escrow.amount by {
        assert(s.entries[i].escrow.wf());
    }
}

/// The share of an entry in what is held by entries whose lifecycle has not
/// ended.
pub open spec fn share_held() -> spec_fn(EscrowWithId) -> int {
    |e: EscrowWithId|
        if e.escrow.refundable() {
            e.escrow.remaining_amount as int
        } else {
            0int
        }
}

/// Entries that are released or refunded hold nothing, so what all entries
/// hold is what the locked and the partially refunded ones hold.
pub proof fn lemma_only_open_entries_hold(entries: Seq<EscrowWithId>)
    requires
        forall|i: int| 0 <= i < entries.len() ==> (#[trigger] entries[i]).escrow.wf(),
    ensures
        remaining_sum(entries) == total(entries, share_held()),
    decreases entries.len(),
{
    if entries.len() > 0 {
        let head = entries.drop_last();
        assert forall|i: int| 0 <= i < head.len() implies (#[trigger] head[i]).escrow.wf() by {
            assert(head[i] == entries[i]);
        }
        lemma_only_open_entries_hold(head);
        assert(entries.last() == entries[entries.len() - 1]);
        assert(entries.last().escrow.wf());
    }
}

/// Balance conservation: in every well-formed state, and so after every
/// operation, the sum of what was locked equals what was released plus what
/// was refunded plus what the entries that are still open hold.
pub proof fn lemma_balance_conservation(s: BountyState)
    requires
        s.wf(),
    ensures
        amount_sum(s.entries) == s.stats.total_released + s.stats.total_refunded + total(
            s.entries,
            share_held(),
        ),
        s.stats.total_locked == total(s.entries, share_held()),
{
    lemma_only_open_entries_hold(s.entries);
}

/// Status partition: in every well-formed state, and so after every
/// operation, each counter is the number of entries in its status and the
/// four counters add up to the number of entries.
pub proof fn lemma_status_partition(s: BountyState)
    requires
        s.wf(),
    ensures
        s.stats.count_locked == status_count(s.entries, EscrowStatus::Locked),
        s.stats.count_released == status_count(s.entries, EscrowStatus::Released),
        s.stats.count_refunded == status_count(s.entries, EscrowStatus::Refunded),
        s.stats.count_partially_refunded == status_count(
            s.entries,
            EscrowStatus::PartiallyRefunded,
        ),
        s.stats.count_locked + s.stats.count_released + s.stats.count_refunded
            + s.stats.count_partially_refunded == s.entries.len(),
{
}

/// Replacing the entry at `i` moves no identifier, so every bounty is found
/// where it was.
pub proof fn lemma_with_entry_keeps_index(
    s: BountyState,
    i: int,
    next: Escrow,
    released: int,
    refunded: int,
    bounty_id: u64,
)
    requires
        0 <= i < s.entries.len(),
    ensures
        s.with_entry(i, next, released, refunded).index_of(bounty_id) == s.index_of(bounty_id),
        s.with_entry(i, next, released, refunded).entries.len() == s.entries.len(),
{
    let pred = |e: EscrowWithId| e.bounty_id == bounty_id;
    let after = s.with_entry(i, next, released, refunded);
    lemma_first_index(s.entries, pred);
    let at = s.index_of(bounty_id);
    assert forall|j: int| 0 <= j < at implies !pred(after.entries[j]) by {
        assert(!pred(s.entries[j]));
    }
    if at < s.entries.len() {
        assert(pred(s.entries[at]));
        assert(pred(after.entries[at]));
    }
    lemma_first_index_is(after.entries, pred, at);
}

/// Terminal transitions are final: once an entry is released or refunded,
/// `release_funds` and `refund` on it fail with `FundsNotLocked` for every
/// caller that gets past the guard, the pause flag and the authorization,
/// whatever the clock says; and a failed call asks for no transfer.
pub proof fn lemma_terminal_is_final(
    s: BountyState,
    caller: Address,
    bounty_id: u64,
    contributor: Address,
    now: u64,
)
    requires
        s.has(bounty_id),
        s.entry(bounty_id).is_terminal(),
    ensures
        s.admin_gate(s.pause.release_paused, caller) is Ok ==> s.release_funds(
            caller,
            bounty_id,
            contributor,
        ) == Err::<(BountyState, OutcomeView<()>), Error>(Error::FundsNotLocked),
        s.gate(s.pause.refund_paused) is Ok ==> s.refund(bounty_id, now) == Err::<
            (BountyState, OutcomeView<()>),
            Error,
        >(Error::FundsNotLocked),
{
}

/// A second `release_funds` on the same bounty fails with `FundsNotLocked`,
/// whoever the second contributor is.
pub proof fn lemma_second_release_fails(
    s: BountyState,
    caller: Address,
    bounty_id: u64,
    first: Address,
    second: Address,
)
    requires
        s.release_funds(caller, bounty_id, first) is Ok,
    ensures
        s.release_funds(caller, bounty_id, first)->Ok_0.0.release_funds(caller, bounty_id, second)
            == Err::<(BountyState, OutcomeView<()>), Error>(Error::FundsNotLocked),
{
    let e = s.entry(bounty_id);
    lemma_first_index(s.entries, |x: EscrowWithId| x.bounty_id == bounty_id);
    lemma_with_entry_keeps_index(
        s,
        s.index_of(bounty_id),
        e.released(),
        e.remaining_amount as int,
        0,
        bounty_id,
    );
}

/// A second `refund` on a bounty that the first has refunded in full fails
/// with `FundsNotLocked`.
pub proof fn lemma_second_refund_fails(s: BountyState, bounty_id: u64, now: u64, later: u64)
    requires
        s.refund(bounty_id, now) is Ok,
        s.refund(bounty_id, now)->Ok_0.0.entry(bounty_id).status == EscrowStatus::Refunded,
    ensures
        s.refund(bounty_id, now)->Ok_0.0.refund(bounty_id, later) == Err::<
            (BountyState, OutcomeView<()>),
            Error,
        >(Error::FundsNotLocked),
{
    let e = s.entry(bounty_id);
    let i = s.index_of(bounty_id);
    lemma_first_index(s.entries, |x: EscrowWithId| x.bounty_id == bounty_id);
    if now >= e.deadline {
        lemma_with_entry_keeps_index(
            s,
            i,
            e.after_refund(e.remaining_amount),
            0,
            e.remaining_amount as int,
            bounty_id,
        );
    } else {
        let amount = e.approved_amount(e.partial_refund_approval->0);
        lemma_with_entry_keeps_index(s, i, e.after_refund(amount), 0, amount as int, bounty_id);
    }
}

/// The deadline law: on an entry that is open and for which no refund was
/// approved, `refund` succeeds exactly from the deadline on, and before it
/// fails with `DeadlineNotPassed`.
pub proof fn lemma_deadline_law(s: BountyState, bounty_id: u64, now: u64)
    requires
        s.gate(s.pause.refund_paused) is Ok,
        s.has(bounty_id),
        s.entry(bounty_id).refundable(),
        s.entry(bounty_id).partial_refund_approval is None,
    ensures
        s.refund(bounty_id, now) is Ok <==> now >= s.entry(bounty_id).deadline,
        now < s.entry(bounty_id).deadline ==> s.refund(bounty_id, now) == Err::<
            (BountyState, OutcomeView<()>),
            Error,
        >(Error::DeadlineNotPassed),
{
}

/// Pause exclusivity: while locking is paused every `lock_funds` that gets
/// past the reentrancy guard fails with `Paused`, so no entry is created;
/// and the flag plays no part in `release_funds`.
pub proof fn lemma_lock_pause_is_exclusive(
    s: BountyState,
    caller: Address,
    depositor: Address,
    bounty_id: u64,
    amount: i128,
    deadline: u64,
    contributor: Address,
)
    requires
        s.pause.lock_paused,
        !s.guard.entered,
    ensures
        s.lock_funds(caller, depositor, bounty_id, amount, deadline) == Err::<
            (BountyState, OutcomeView<()>),
            Error,
        >(Error::Paused),
        ({
            let unpaused = BountyState {
                pause: PauseFlags { lock_paused: false, ..s.pause },
                ..s
            };
            match (
                s.release_funds(caller, bounty_id, contributor),
                unpaused.release_funds(caller, bounty_id, contributor),
            ) {
                (Ok((a, out)), Ok((b, other))) => out == other && a.entries == b.entries && a.stats
                    == b.stats,
                (Err(e), Err(f)) => e == f,
                _ => false,
            }
        }),
{
}

/// Reentrancy: while a protected call is in flight every mutator fails with
/// `Reentrancy`.
pub proof fn lemma_reentrancy_blocks(
    s: BountyState,
    a: Address,
    b: Address,
    id: u64,
    amount: i128,
    t: u64,
    mode: RefundMode,
    flag: Option<bool>,
    change: FeeUpdate,
    text: Seq<char>,
)
    requires
        s.guard.entered,
    ensures
        s.init(a, b) is Err && s.init(a, b)->Err_0 == Error::Reentrancy,
        s.lock_funds(a, b, id, amount, t) is Err && s.lock_funds(a, b, id, amount, t)->Err_0
            == Error::Reentrancy,
        s.release_funds(a, id, b) is Err && s.release_funds(a, id, b)->Err_0 == Error::Reentrancy,
        s.partial_release(a, id, b, amount) is Err && s.partial_release(a, id, b, amount)->Err_0
            == Error::Reentrancy,
        s.refund(id, t) is Err && s.refund(id, t)->Err_0 == Error::Reentrancy,
        s.approve_refund(a, id, amount, b, mode) is Err && s.approve_refund(
            a,
            id,
            amount,
            b,
            mode,
        )->Err_0 == Error::Reentrancy,
        s.authorize_claim(a, id, b, t) is Err && s.authorize_claim(a, id, b, t)->Err_0
            == Error::Reentrancy,
        s.claim(a, id, t) is Err && s.claim(a, id, t)->Err_0 == Error::Reentrancy,
        s.set_claim_window(a, t) is Err && s.set_claim_window(a, t)->Err_0 == Error::Reentrancy,
        s.set_paused(a, flag, flag, flag) is Err && s.set_paused(a, flag, flag, flag)->Err_0
            == Error::Reentrancy,
        s.update_fee_config(a, change) is Err && s.update_fee_config(a, change)->Err_0
            == Error::Reentrancy,
        s.update_metadata(a, id, t, t, text) is Err && s.update_metadata(a, id, t, t, text)->Err_0
            == Error::Reentrancy,
{
}

impl Clone for EscrowMetadata {
    fn clone(&self) -> (copy: EscrowMetadata)
        ensures
            copy.repo_id == self.repo_id,
            copy.issue_id == self.issue_id,
            copy.bounty_type@ == self.bounty_type@,
    {
        EscrowMetadata {
            repo_id: self.repo_id,
            issue_id: self.issue_id,
            bounty_type: self.bounty_type.clone(),
        }
    }
}

impl Clone for MetadataEntry {
    fn clone(&self) -> (copy: MetadataEntry)
        ensures
            copy@ == self@,
    {
        MetadataEntry { bounty_id: self.bounty_id, metadata: self.metadata.clone() }
    }
}

/// All that the engine holds, laid open: what is written to and read from
/// the ledger's store between calls.
pub struct BountySnapshot {
    pub contract_address: Address,
    pub guard: ReentrancyGuard,
    pub pause: PauseFlags,
    pub admin: Option<Address>,
    pub token: Option<Address>,
    pub entries: Vec<EscrowWithId>,
    pub stats: AggregateStats,
    pub fee_config: FeeConfig,
    pub claim_window: u64,
    pub metadata: Vec<MetadataEntry>,
    pub checks_disabled: bool,
}

impl View for BountySnapshot {
    type V = BountyState;

    open spec fn view(&self) -> BountyState {
        BountyState {
            contract_address: self.contract_address,
            guard: self.guard,
            pause: self.pause,
            admin: self.admin,
            token: self.token,
            entries: self.entries@,
            stats: self.stats,
            fee_config: self.fee_config,
            claim_window: self.claim_window,
            metadata: metadata_views(self.metadata@),
            checks_disabled: self.checks_disabled,
        }
    }
}

/// Decides `Escrow::wf` for an entry.
pub fn escrow_is_well_formed(e: &Escrow) -> (b: bool)
    ensures
        b == e.wf(),
{
    if e.remaining_amount < 0 || e.remaining_amount > e.amount {
        return false;
    }
    let locked: bool = match e.status {
        EscrowStatus::Locked => true,
        _ => false,
    };
    let ended: bool = match e.status {
        EscrowStatus::Released => true,
        EscrowStatus::Refunded => true,
        _ => false,
    };
    if ended && e.remaining_amount != 0 {
        return false;
    }
    match e.pending_claim {
        Some(c) => {
            if !locked || c.amount != e.remaining_amount {
                return false;
            }
        },
        None => {},
    }
    match e.partial_refund_approval {
        Some(a) => locked && 0 < a.amount && a.amount <= e.remaining_amount,
        None => true,
    }
}

/// Whether the entries conform one by one and carry identifiers that are
/// all different.
#[verifier::loop_isolation(false)]
fn entries_are_well_formed(entries: &Vec<EscrowWithId>) -> (b: bool)
    ensures
        b == ((forall|i: int, j: int|
            0 <= i < j < entries@.len() ==> (#[trigger] entries@[i]).bounty_id != (
            #[trigger] entries@[j]).bounty_id) && (forall|i: int|
            0 <= i < entries@.len() ==> (#[trigger] entries@[i]).escrow.wf())),
{
    let n: usize = entries.len();
    let mut i: usize = 0;
    while i < n
        invariant
            i <= n,
            forall|a: int| 0 <= a < i ==> (#[trigger] entries@[a]).escrow.wf(),
            forall|a: int, b: int|
                0 <= a < b < n && a < i ==> (#[trigger] entries@[a]).bounty_id != (
                #[trigger] entries@[b]).bounty_id,
        decreases n - i,
    {
        if !escrow_is_well_formed(&entries[i].escrow) {
            return false;
        }
        let mut j: usize = i + 1;
        while j < n
            invariant
                i < j <= n,
                forall|b: int|
                    i < b < j ==> entries@[i as int].bounty_id != (#[trigger] entries@[b]).bounty_id,
            decreases n - j,
        {
            if entries[i].bounty_id == entries[j].bounty_id {
                return false;
            }
            j = j + 1;
        }
        i = i + 1;
    }
    true
}

/// Whether no bounty has metadata filed twice.
#[verifier::loop_isolation(false)]
fn metadata_is_well_formed(metadata: &Vec<MetadataEntry>) -> (b: bool)
    ensures
        b == (forall|i: int, j: int|
            0 <= i < j < metadata@.len() ==> (#[trigger] metadata_views(metadata@)[i]).bounty_id != (
            #[trigger] metadata_views(metadata@)[j]).bounty_id),
{
    let ghost views = metadata_views(metadata@);
    let n: usize = metadata.len();
    let mut i: usize = 0;
    while i < n
        invariant
            i <= n,
            forall|a: int, b: int|
                0 <= a < b < n && a < i ==> (#[trigger] views[a]).bounty_id != (
                #[trigger] views[b]).bounty_id,
        decreases n - i,
    {
        assert(views[i as int] == metadata@[i as int]@);
        let mut j: usize = i + 1;
        while j < n
            invariant
                i < j <= n,
                forall|b: int|
                    i < b < j ==> views[i as int].bounty_id != (#[trigger] views[b]).bounty_id,
            decreases n - j,
        {
            assert(views[j as int] == metadata@[j as int]@);
            if metadata[i].bounty_id == metadata[j].bounty_id {
                return false;
            }
            j = j + 1;
        }
        i = i + 1;
    }
    true
}

impl BountySnapshot {
    /// Decides whether the snapshot is a well-formed state.
    pub fn is_well_formed(&self) -> (b: bool)
        ensures
            b == self@.wf(),
    {
        let fees_ok: bool = 0 <= self.fee_config.lock_fee_rate && self.fee_config.lock_fee_rate
            <= crate::types::MAX_FEE_RATE && 0 <= self.fee_config.release_fee_rate
            && self.fee_config.release_fee_rate <= crate::types::MAX_FEE_RATE && 0
            <= self.fee_config.payout_fee_rate && self.fee_config.payout_fee_rate
            <= crate::types::MAX_FEE_RATE;
        if !fees_ok {
            return false;
        }
        if self.admin.is_some() != self.token.is_some() {
            return false;
        }
        if self.admin.is_none() && self.entries.len() != 0 {
            return false;
        }
        if !entries_are_well_formed(&self.entries) {
            return false;
        }
        if !entries_pass_checks(&self.entries, &self.stats) {
            return false;
        }
        assert(self.entries@.len() == self.entries.len());
        assert(self@.entries.len() <= u64::MAX);
        assert(self@.aggregates_hold());
        assert(self@.metadata.len() == self.metadata@.len());
        metadata_is_well_formed(&self.metadata)
    }
}

impl BountyEscrowContract {
    /// All that the engine holds, as a snapshot.
    pub fn snapshot(&self) -> (s: BountySnapshot)
        ensures
            s@ == self@,
    {
        let mut metadata: Vec<MetadataEntry> = Vec::new();
        let mut i: usize = 0;
        while i < self.metadata.len()
            invariant
                i <= self.metadata.len(),
                metadata.len() == i,
                forall|j: int| 0 <= j < i ==> metadata@[j]@ == self.metadata@[j]@,
            decreases self.metadata.len() - i,
        {
            metadata.push(self.metadata[i].clone());
            i = i + 1;
        }
        assert(metadata_views(metadata@) =~= metadata_views(self.metadata@));
        BountySnapshot {
            contract_address: self.contract_address,
            guard: self.guard,
            pause: self.pause,
            admin: self.admin,
            token: self.token,
            entries: self.entries.clone(),
            stats: self.stats,
            fee_config: self.fee_config,
            claim_window: self.claim_window,
            metadata,
            checks_disabled: self.checks_disabled,
        }
    }

    /// The engine that holds what the snapshot holds, if the snapshot is a
    /// well-formed state; nothing if it is not.
    pub fn restore(snapshot: BountySnapshot) -> (r: Option<BountyEscrowContract>)
        ensures
            snapshot@.wf() ==> r is Some && r->0@ == snapshot@,
            !snapshot@.wf() ==> r is None,
    {
        if !snapshot.is_well_formed() {
            return None;
        }
        Some(
            BountyEscrowContract {
                contract_address: snapshot.contract_address,
                guard: snapshot.guard,
                pause: snapshot.pause,
                admin: snapshot.admin,
                token: snapshot.token,
                entries: snapshot.entries,
                stats: snapshot.stats,
                fee_config: snapshot.fee_config,
                claim_window: snapshot.claim_window,
                metadata: snapshot.metadata,
                checks_disabled: snapshot.checks_disabled,
            },
        )
    }
}

/// The sum of the amounts of `transfers` that leave `who`, less the sum of
/// those that reach it.
pub open spec fn net_outflow(transfers: Seq<Transfer>, who: Address) -> int
    decreases transfers.len(),
{
    if transfers.len() == 0 {
        0
    } else {
        let t = transfers.last();
        net_outflow(transfers.drop_last(), who) + (if t.from == who {
            t.amount as int
        } else {
            0
        }) - (if t.to == who {
            t.amount as int
        } else {
            0
        })
    }
}

/// The books follow the money: whenever a call that moves funds succeeds,
/// what the transfers it asks for take out of the engine's account, less
/// what they bring in, is what `total_locked` goes down by. So what the
/// engine holds for its bounties is always covered by what came in and has
/// not gone out.
pub proof fn lemma_transfers_match_books(
    s: BountyState,
    caller: Address,
    other: Address,
    bounty_id: u64,
    amount: i128,
    time: u64,
)
    requires
        s.wf(),
        caller != s.contract_address,
        other != s.contract_address,
        forall|i: int|
            0 <= i < s.entries.len() ==> (#[trigger] s.entries[i]).escrow.depositor
                != s.contract_address,
        forall|i: int|
            0 <= i < s.entries.len() ==> ((#[trigger] s.entries[i]).escrow.partial_refund_approval
                matches Some(a) ==> a.recipient != s.contract_address),
        forall|i: int|
            0 <= i < s.entries.len() ==> ((#[trigger] s.entries[i]).escrow.pending_claim matches Some(
                c,
            ) ==> c.recipient != s.contract_address),
    ensures
        s.lock_funds(caller, caller, bounty_id, amount, time) matches Ok((t, out)) ==> net_outflow(
            out.transfers,
            s.contract_address,
        ) == s.stats.total_locked - t.stats.total_locked,
        s.release_funds(caller, bounty_id, other) matches Ok((t, out)) ==> net_outflow(
            out.transfers,
            s.contract_address,
        ) == s.stats.total_locked - t.stats.total_locked,
        s.partial_release(caller, bounty_id, other, amount) matches Ok((t, out)) ==> net_outflow(
            out.transfers,
            s.contract_address,
        ) == s.stats.total_locked - t.stats.total_locked,
        s.refund(bounty_id, time) matches Ok((t, out)) ==> net_outflow(
            out.transfers,
            s.contract_address,
        ) == s.stats.total_locked - t.stats.total_locked,
        s.claim(caller, bounty_id, time) matches Ok((t, out)) ==> net_outflow(
            out.transfers,
            s.contract_address,
        ) == s.stats.total_locked - t.stats.total_locked,
{
    let me = s.contract_address;
    assert forall|t: Transfer| net_outflow(seq![t], me) == (if t.from == me {
        t.amount as int
    } else {
        0
    }) - (if t.to == me {
        t.amount as int
    } else {
        0
    }) by {
        assert(seq![t].drop_last() =~= Seq::<Transfer>::empty());
        assert(seq![t].last() == t);
        assert(net_outflow(Seq::<Transfer>::empty(), me) == 0);
    }
    lemma_first_index(s.entries, |e: EscrowWithId| e.bounty_id == bounty_id);
    if s.has(bounty_id) {
        let i = s.index_of(bounty_id);
        let e = s.entry(bounty_id);
        assert(s.entries[i].escrow.wf());
        assert(s.entries[i].escrow.depositor != me);
        lemma_with_entry(s, i, e, 0, 0);
        lemma_total_bounds(s.entries, share_status(EscrowStatus::Locked));
    }
}

} // verus!
