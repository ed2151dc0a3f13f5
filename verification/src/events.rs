//! Events: what an engine asks to have published after a state change.

use vstd::prelude::*;
use crate::error_recovery::CircuitState;
use crate::fees::FeeConfig;
use crate::pause::PauseFlags;
use crate::types::{Address, Transfer, EVENT_VERSION};

verus! {

/// One observable state change with its payload. Events that concern a
/// program carry its identifier.
#[derive(Clone, Debug, PartialEq, Eq)]
pub enum Event {
    /// A program was set up.
    ProgramInitialized {
        program_id: String,
        authorized_payout_key: Address,
        token_address: Address,
        total_funds: i128,
    },
    /// A program was registered by a batch call.
    ProgramRegistered {
        program_id: String,
        authorized_payout_key: Address,
        token_address: Address,
        total_funds: i128,
    },
    /// Funds were added to the program.
    ProgramFundsLocked { program_id: String, amount: i128, remaining_balance: i128 },
    /// Several recipients were paid at once.
    BatchPayout { program_id: String, recipients: u64, total: i128, remaining_balance: i128 },
    /// One recipient was paid.
    Payout { program_id: String, recipient: Address, amount: i128, remaining_balance: i128 },
    /// A payout waits for its approvals.
    PayoutPending { program_id: String, recipient: Address, amount: i128 },
    /// A release was scheduled.
    ScheduleCreated {
        program_id: String,
        schedule_id: u64,
        recipient: Address,
        amount: i128,
        release_timestamp: u64,
    },
    /// A scheduled release was paid.
    ScheduleReleased {
        program_id: String,
        schedule_id: u64,
        recipient: Address,
        amount: i128,
        released_at: u64,
    },
    /// The circuit breaker changed its position.
    CircuitChanged { from: CircuitState, to: CircuitState },
    /// The pause flags were set.
    PauseSet { flags: PauseFlags },
    /// The fee configuration was changed.
    FeeUpdated { config: FeeConfig },
    /// The bounty engine was set up.
    Initialized { admin: Address, token: Address },
    /// A bounty was funded.
    Locked { bounty_id: u64, depositor: Address, amount: i128, deadline: u64 },
    /// A bounty was paid to its contributor, in full or in part.
    Released { bounty_id: u64, recipient: Address, amount: i128, remaining: i128 },
    /// What was left of a bounty went back.
    Refunded { bounty_id: u64, recipient: Address, amount: i128 },
    /// A part of a bounty went back.
    PartiallyRefunded { bounty_id: u64, recipient: Address, amount: i128, remaining: i128 },
    /// A claimant was named for a bounty.
    ClaimAuthorized { bounty_id: u64, claimant: Address, amount: i128, expires_at: u64 },
    /// A claimant collected a bounty.
    Claimed { bounty_id: u64, recipient: Address, amount: i128 },
}

/// An event as a value.
pub enum EventView {
    ProgramInitialized {
        program_id: Seq<char>,
        authorized_payout_key: Address,
        token_address: Address,
        total_funds: i128,
    },
    ProgramRegistered {
        program_id: Seq<char>,
        authorized_payout_key: Address,
        token_address: Address,
        total_funds: i128,
    },
    ProgramFundsLocked { program_id: Seq<char>, amount: i128, remaining_balance: i128 },
    BatchPayout { program_id: Seq<char>, recipients: u64, total: i128, remaining_balance: i128 },
    Payout { program_id: Seq<char>, recipient: Address, amount: i128, remaining_balance: i128 },
    PayoutPending { program_id: Seq<char>, recipient: Address, amount: i128 },
    ScheduleCreated {
        program_id: Seq<char>,
        schedule_id: u64,
        recipient: Address,
        amount: i128,
        release_timestamp: u64,
    },
    ScheduleReleased {
        program_id: Seq<char>,
        schedule_id: u64,
        recipient: Address,
        amount: i128,
        released_at: u64,
    },
    CircuitChanged { from: CircuitState, to: CircuitState },
    PauseSet { flags: PauseFlags },
    FeeUpdated { config: FeeConfig },
    Initialized { admin: Address, token: Address },
    Locked { bounty_id: u64, depositor: Address, amount: i128, deadline: u64 },
    Released { bounty_id: u64, recipient: Address, amount: i128, remaining: i128 },
    Refunded { bounty_id: u64, recipient: Address, amount: i128 },
    PartiallyRefunded { bounty_id: u64, recipient: Address, amount: i128, remaining: i128 },
    ClaimAuthorized { bounty_id: u64, claimant: Address, amount: i128, expires_at: u64 },
    Claimed { bounty_id: u64, recipient: Address, amount: i128 },
}

impl View for Event {
    type V = EventView;

    open spec fn view(&self) -> EventView {
        match *self {
            Event::ProgramInitialized {
                program_id,
                authorized_payout_key,
                token_address,
                total_funds,
            } => EventView::ProgramInitialized {
                program_id: program_id@,
                authorized_payout_key,
                token_address,
                total_funds,
            },
            Event::ProgramRegistered {
                program_id,
                authorized_payout_key,
                token_address,
                total_funds,
            } => EventView::ProgramRegistered {
                program_id: program_id@,
                authorized_payout_key,
                token_address,
                total_funds,
            },
            Event::ProgramFundsLocked {
                program_id,
                amount,
                remaining_balance,
            } => EventView::ProgramFundsLocked { program_id: program_id@, amount, remaining_balance },
            Event::BatchPayout {
                program_id,
                recipients,
                total,
                remaining_balance,
            } => EventView::BatchPayout {
                program_id: program_id@,
                recipients,
                total,
                remaining_balance,
            },
            Event::Payout { program_id, recipient, amount, remaining_balance } => EventView::Payout {
                program_id: program_id@,
                recipient,
                amount,
                remaining_balance,
            },
            Event::PayoutPending { program_id, recipient, amount } => EventView::PayoutPending {
                program_id: program_id@,
                recipient,
                amount,
            },
            Event::ScheduleCreated {
                program_id,
                schedule_id,
                recipient,
                amount,
                release_timestamp,
            } => EventView::ScheduleCreated {
                program_id: program_id@,
                schedule_id,
                recipient,
                amount,
                release_timestamp,
            },
            Event::ScheduleReleased {
                program_id,
                schedule_id,
                recipient,
                amount,
                released_at,
            } => EventView::ScheduleReleased {
                program_id: program_id@,
                schedule_id,
                recipient,
                amount,
                released_at,
            },
            Event::CircuitChanged { from, to } => EventView::CircuitChanged { from, to },
            Event::PauseSet { flags } => EventView::PauseSet { flags },
            Event::FeeUpdated { config } => EventView::FeeUpdated { config },
            Event::Initialized { admin, token } => EventView::Initialized { admin, token },
            Event::Locked { bounty_id, depositor, amount, deadline } => EventView::Locked {
                bounty_id,
                depositor,
                amount,
                deadline,
            },
            Event::Released { bounty_id, recipient, amount, remaining } => EventView::Released {
                bounty_id,
                recipient,
                amount,
                remaining,
            },
            Event::Refunded { bounty_id, recipient, amount } => EventView::Refunded {
                bounty_id,
                recipient,
                amount,
            },
            Event::PartiallyRefunded {
                bounty_id,
                recipient,
                amount,
                remaining,
            } => EventView::PartiallyRefunded { bounty_id, recipient, amount, remaining },
            Event::ClaimAuthorized {
                bounty_id,
                claimant,
                amount,
                expires_at,
            } => EventView::ClaimAuthorized { bounty_id, claimant, amount, expires_at },
            Event::Claimed { bounty_id, recipient, amount } => EventView::Claimed {
                bounty_id,
                recipient,
                amount,
            },
        }
    }
}

/// The views of `events`, in their order.
pub open spec fn event_views(events: Seq<Event>) -> Seq<EventView> {
    events.map_values(|e: Event| e@)
}

impl Event {
    /// The tag under which the event is published.
    pub fn topic(&self) -> (t: &'static str)
        ensures
            t@ == match *self {
                Event::ProgramInitialized { .. } => "PrgInit"@,
                Event::ProgramRegistered { .. } => "PrgReg"@,
                Event::ProgramFundsLocked { .. } => "FndsLock"@,
                Event::BatchPayout { .. } => "BatchPay"@,
                Event::Payout { .. } => "Payout"@,
                Event::PayoutPending { .. } => "PayPend"@,
                Event::ScheduleCreated { .. } => "ScheduleCreated"@,
                Event::ScheduleReleased { .. } => "ScheduleReleased"@,
                Event::CircuitChanged { .. } => "circuit"@,
                Event::PauseSet { .. } => "pause_set"@,
                Event::FeeUpdated { .. } => "fee_updated"@,
                Event::Initialized { .. } => "init"@,
                Event::Locked { .. } => "locked"@,
                Event::Released { .. } => "released"@,
                Event::Refunded { .. } => "refunded"@,
                Event::PartiallyRefunded { .. } => "partially_refunded"@,
                Event::ClaimAuthorized { .. } => "claim_authorized"@,
                Event::Claimed { .. } => "claimed"@,
            },
    {
        match self {
            Event::ProgramInitialized { .. } => "PrgInit",
            Event::ProgramRegistered { .. } => "PrgReg",
            Event::ProgramFundsLocked { .. } => "FndsLock",
            Event::BatchPayout { .. } => "BatchPay",
            Event::Payout { .. } => "Payout",
            Event::PayoutPending { .. } => "PayPend",
            Event::ScheduleCreated { .. } => "ScheduleCreated",
            Event::ScheduleReleased { .. } => "ScheduleReleased",
            Event::CircuitChanged { .. } => "circuit",
            Event::PauseSet { .. } => "pause_set",
            Event::FeeUpdated { .. } => "fee_updated",
            Event::Initialized { .. } => "init",
            Event::Locked { .. } => "locked",
            Event::Released { .. } => "released",
            Event::Refunded { .. } => "refunded",
            Event::PartiallyRefunded { .. } => "partially_refunded",
            Event::ClaimAuthorized { .. } => "claim_authorized",
            Event::Claimed { .. } => "claimed",
        }
    }

    /// The version that the payload carries: always `EVENT_VERSION`.
    pub fn version(&self) -> (v: u32)
        ensures
            v == EVENT_VERSION,
    {
        EVENT_VERSION
    }
}

/// What a successful call hands back: its result, the transfers to ask of the
/// token service, in order, and the events to publish, in order.
pub struct Outcome<T> {
    pub value: T,
    pub transfers: Vec<Transfer>,
    pub events: Vec<Event>,
}

/// An outcome as a value.
pub struct OutcomeView<T> {
    pub value: T,
    pub transfers: Seq<Transfer>,
    pub events: Seq<EventView>,
}

impl<T> View for Outcome<T> {
    type V = OutcomeView<T>;

    open spec fn view(&self) -> OutcomeView<T> {
        OutcomeView {
            value: self.value,
            transfers: self.transfers@,
            events: event_views(self.events@),
        }
    }
}

/// The outcome with `value`, the given transfers and one event.
pub open spec fn outcome_of<T>(value: T, transfers: Seq<Transfer>, event: EventView) -> OutcomeView<
    T,
> {
    OutcomeView { value, transfers, events: seq![event] }
}

impl<T> Outcome<T> {
    /// An outcome with neither a transfer nor an event.
    pub fn quiet(value: T) -> (o: Outcome<T>)
        ensures
            o@ == (OutcomeView { value, transfers: Seq::empty(), events: Seq::empty() }),
    {
        let o = Outcome { value, transfers: Vec::new(), events: Vec::new() };
        assert(o@.events =~= Seq::empty());
        o
    }

    /// An outcome with the given transfers and one event.
    pub fn with(value: T, transfers: Vec<Transfer>, event: Event) -> (o: Outcome<T>)
        ensures
            o@ == outcome_of(value, transfers@, event@),
    {
        let mut events: Vec<Event> = Vec::new();
        events.push(event);
        let o = Outcome { value, transfers, events };
        assert(o@.events =~= seq![event@]);
        o
    }

    /// An outcome without a transfer.
    pub fn silent(value: T, event: Event) -> (o: Outcome<T>)
        ensures
            o@ == outcome_of(value, Seq::empty(), event@),
    {
        Outcome::with(value, Vec::new(), event)
    }

    /// An outcome with one transfer.
    pub fn single(value: T, transfer: Transfer, event: Event) -> (o: Outcome<T>)
        ensures
            o@ == outcome_of(value, seq![transfer], event@),
    {
        let mut transfers: Vec<Transfer> = Vec::new();
        transfers.push(transfer);
        assert(transfers@ =~= seq![transfer]);
        Outcome::with(value, transfers, event)
    }
}

/// What a call has to report and to leave behind, given what the state
/// machine says of it: on success the outcome and the new state, on failure
/// the error and the state as it was.
pub open spec fn agrees<S, T, E>(
    r: Result<Outcome<T>, E>,
    before: S,
    after: S,
    expected: Result<(S, OutcomeView<T>), E>,
) -> bool {
    match expected {
        Ok((state, outcome)) => r is Ok && r->Ok_0@ == outcome && after == state,
        Err(e) => r is Err && r->Err_0 == e && after == before,
    }
}

/// As `agrees`, for a call that hands back nothing.
pub open spec fn agrees_plain<S, E>(
    r: Result<(), E>,
    before: S,
    after: S,
    expected: Result<S, E>,
) -> bool {
    match expected {
        Ok(state) => r is Ok && after == state,
        Err(e) => r is Err && r->Err_0 == e && after == before,
    }
}

} // verus!
