//! The rate limiter: a counting window and a cooldown per caller, with a
//! whitelist that bypasses both.

use vstd::prelude::*;
use crate::error::Error;
use crate::query::{first_index, lemma_first_index, lemma_first_index_is};
use crate::types::Address;

verus! {

/// The limits that apply to every caller that is not whitelisted.
#[derive(Clone, Copy, Debug, PartialEq, Eq, Structural)]
pub struct RateLimitConfig {
    /// Length of a counting window, in seconds.
    pub window_size: u64,
    /// Calls admitted per window.
    pub max_operations: u32,
    /// Seconds that must pass between two calls.
    pub cooldown_period: u64,
}

/// What the limiter remembers of one caller.
#[derive(Clone, Copy, Debug, PartialEq, Eq, Structural)]
pub struct CallerRecord {
    pub caller: Address,
    pub window_start: u64,
    pub operations_in_window: u32,
    pub last_op_at: u64,
    pub whitelisted: bool,
}

/// The record of a caller that the limiter has not seen yet.
pub open spec fn fresh_record(caller: Address) -> CallerRecord {
    CallerRecord {
        caller,
        window_start: 0,
        operations_in_window: 0,
        last_op_at: 0,
        whitelisted: false,
    }
}

/// Seconds from `then` to `now`; 0 where `now` lies before `then`.
pub open spec fn elapsed(now: u64, then: u64) -> u64 {
    if now >= then {
        (now - then) as u64
    } else {
        0
    }
}

/// Whether a call at `now` opens a new window for `rec`.
pub open spec fn window_expired(cfg: RateLimitConfig, rec: CallerRecord, now: u64) -> bool {
    elapsed(now, rec.window_start) >= cfg.window_size
}

/// The decision on one call by the owner of `rec` at `now`: the record to
/// keep if the call is admitted, the error if it is not.
///
/// A whitelisted caller is admitted and nothing is recorded. Otherwise the
/// cooldown is tested first, then the window is renewed if it has run out,
/// then the count is tested against the limit.
pub open spec fn judge(cfg: RateLimitConfig, rec: CallerRecord, now: u64) -> Result<
    CallerRecord,
    Error,
> {
    if rec.whitelisted {
        Ok(rec)
    } else if rec.last_op_at > 0 && elapsed(now, rec.last_op_at) < cfg.cooldown_period {
        Err(Error::Cooldown)
    } else {
        let expired = window_expired(cfg, rec, now);
        let start = if expired { now } else { rec.window_start };
        let count = if expired { 0u32 } else { rec.operations_in_window };
        if count >= cfg.max_operations {
            Err(Error::RateLimit)
        } else {
            Ok(
                CallerRecord {
                    caller: rec.caller,
                    window_start: start,
                    operations_in_window: (count + 1) as u32,
                    last_op_at: now,
                    whitelisted: false,
                },
            )
        }
    }
}

/// Computes `judge`.
pub fn decide(cfg: &RateLimitConfig, rec: &CallerRecord, now: u64) -> (r: Result<
    CallerRecord,
    Error,
>)
    ensures
        r == judge(*cfg, *rec, now),
{
    if rec.whitelisted {
        return Ok(*rec);
    }
    if rec.last_op_at > 0 && now.saturating_sub(rec.last_op_at) < cfg.cooldown_period {
        return Err(Error::Cooldown);
    }
    let expired: bool = now.saturating_sub(rec.window_start) >= cfg.window_size;
    let start: u64 = if expired { now } else { rec.window_start };
    let count: u32 = if expired { 0 } else { rec.operations_in_window };
    if count >= cfg.max_operations {
        return Err(Error::RateLimit);
    }
    Ok(
        CallerRecord {
            caller: rec.caller,
            window_start: start,
            operations_in_window: count + 1,
            last_op_at: now,
            whitelisted: false,
        },
    )
}

/// The limiter: its configuration and one record per caller it has seen.
pub struct RateLimiter {
    pub config: RateLimitConfig,
    pub records: Vec<CallerRecord>,
}

/// The limiter as a value: the configuration and the records in the order in
/// which the callers were first seen.
pub struct RateLimiterView {
    pub config: RateLimitConfig,
    pub records: Seq<CallerRecord>,
}

/// The position of `caller`'s record in `records`, or the length of
/// `records` if it has none.
pub open spec fn position_of(records: Seq<CallerRecord>, caller: Address) -> int {
    first_index(records, |r: CallerRecord| r.caller == caller)
}

/// `position_of` is in range, names a record of `caller` when it is below
/// the length, and no earlier record belongs to `caller`.
pub proof fn lemma_position_of(records: Seq<CallerRecord>, caller: Address)
    ensures
        0 <= position_of(records, caller) <= records.len(),
        position_of(records, caller) < records.len() ==> records[position_of(
            records,
            caller,
        )].caller == caller,
        forall|i: int| 0 <= i < position_of(records, caller) ==> records[i].caller != caller,
{
    lemma_first_index(records, |r: CallerRecord| r.caller == caller);
}

impl RateLimiterView {
    /// No caller has two records.
    pub open spec fn wf(self) -> bool {
        forall|i: int, j: int|
            0 <= i < j < self.records.len() ==> self.records[i].caller != self.records[j].caller
    }

    /// What the limiter holds for `caller`.
    pub open spec fn record_of(self, caller: Address) -> CallerRecord {
        let i = position_of(self.records, caller);
        if i < self.records.len() {
            self.records[i]
        } else {
            fresh_record(caller)
        }
    }

    /// The limiter with `rec` as the record of its caller.
    pub open spec fn with_record(self, rec: CallerRecord) -> RateLimiterView {
        let i = position_of(self.records, rec.caller);
        RateLimiterView {
            config: self.config,
            records: if i < self.records.len() {
                self.records.update(i, rec)
            } else {
                self.records.push(rec)
            },
        }
    }

    /// The outcome of one call by `caller` at `now`: the limiter afterwards,
    /// or the error. A whitelisted caller leaves no trace.
    pub open spec fn check(self, caller: Address, now: u64) -> Result<RateLimiterView, Error> {
        let rec = self.record_of(caller);
        match judge(self.config, rec, now) {
            Ok(next) => if rec.whitelisted {
                Ok(self)
            } else {
                Ok(self.with_record(next))
            },
            Err(e) => Err(e),
        }
    }

    /// The limiter with `caller` put on or taken off the whitelist.
    pub open spec fn with_whitelist(self, caller: Address, whitelisted: bool) -> RateLimiterView {
        let rec = self.record_of(caller);
        self.with_record(
            CallerRecord {
                caller,
                window_start: rec.window_start,
                operations_in_window: rec.operations_in_window,
                last_op_at: rec.last_op_at,
                whitelisted,
            },
        )
    }

    /// The limiter under another configuration.
    pub open spec fn with_config(self, config: RateLimitConfig) -> RateLimiterView {
        RateLimiterView { config, records: self.records }
    }
}

/// Writing a record keeps the limiter well formed, makes it the record of its
/// caller, and leaves every other caller's record as it was.
pub proof fn lemma_with_record(v: RateLimiterView, rec: CallerRecord)
    requires
        v.wf(),
    ensures
        v.with_record(rec).wf(),
        v.with_record(rec).record_of(rec.caller) == rec,
        forall|other: Address|
            other != rec.caller ==> #[trigger] v.with_record(rec).record_of(other) == v.record_of(
                other,
            ),
{
    let i = position_of(v.records, rec.caller);
    let w = v.with_record(rec);
    lemma_position_of(v.records, rec.caller);
    lemma_position_of(w.records, rec.caller);
    assert(position_of(w.records, rec.caller) == i) by {
        assert(w.records[i].caller == rec.caller);
    }
    assert forall|other: Address| other != rec.caller implies #[trigger] w.record_of(other)
        == v.record_of(other) by {
        lemma_position_of(v.records, other);
        lemma_position_of(w.records, other);
        let a = position_of(v.records, other);
        let b = position_of(w.records, other);
        if a < v.records.len() {
            assert(w.records[a].caller == other);
            assert(b <= a);
            if b < a {
                assert(v.records[b].caller == other);
            }
        } else {
            if b < w.records.len() {
                if b < v.records.len() {
                    assert(v.records[b].caller == other);
                }
            }
        }
    }
}

impl View for RateLimiter {
    type V = RateLimiterView;

    open spec fn view(&self) -> RateLimiterView {
        RateLimiterView { config: self.config, records: self.records@ }
    }
}

impl RateLimitConfig {
    /// The configuration of a new limiter: windows of one hour, as many
    /// calls per window as the counter can hold, and no cooldown. Until the
    /// limits are set, the limiter stands in nobody's way.
    pub open spec fn initial() -> RateLimitConfig {
        RateLimitConfig { window_size: 3600, max_operations: u32::MAX, cooldown_period: 0 }
    }
}

impl RateLimiter {
    /// A limiter that has seen nobody, under `RateLimitConfig::initial()`.
    pub fn new() -> (l: RateLimiter)
        ensures
            l@.config == RateLimitConfig::initial(),
            l@.records == Seq::<CallerRecord>::empty(),
            l@.wf(),
    {
        RateLimiter {
            config: RateLimitConfig {
                window_size: 3600,
                max_operations: u32::MAX,
                cooldown_period: 0,
            },
            records: Vec::new(),
        }
    }

    fn find(&self, caller: Address) -> (i: usize)
        ensures
            i == position_of(self@.records, caller),
            i <= self.records.len(),
    {
        let ghost pred = |r: CallerRecord| r.caller == caller;
        let mut i: usize = 0;
        while i < self.records.len()
            invariant
                i <= self.records.len(),
                pred == (|r: CallerRecord| r.caller == caller),
                forall|j: int| 0 <= j < i ==> !pred(self.records@[j]),
            decreases self.records.len() - i,
        {
            if self.records[i].caller == caller {
                proof {
                    lemma_first_index_is(self.records@, pred, i as int);
                }
                return i;
            }
            i = i + 1;
        }
        proof {
            lemma_first_index_is(self.records@, pred, i as int);
        }
        i
    }

    /// The record kept for `caller`, or a fresh one if there is none.
    pub fn get_record(&self, caller: Address) -> (rec: CallerRecord)
        ensures
            rec == self@.record_of(caller),
    {
        let i: usize = self.find(caller);
        if i < self.records.len() {
            self.records[i]
        } else {
            CallerRecord {
                caller,
                window_start: 0,
                operations_in_window: 0,
                last_op_at: 0,
                whitelisted: false,
            }
        }
    }

    fn put(&mut self, rec: CallerRecord)
        ensures
            final(self)@ == old(self)@.with_record(rec),
    {
        let i: usize = self.find(rec.caller);
        if i < self.records.len() {
            self.records.set(i, rec);
        } else {
            self.records.push(rec);
        }
    }

    /// Decides on one call by `caller` at `now` and, if it is admitted,
    /// counts it. A refused call changes nothing.
    pub fn check_and_record(&mut self, caller: Address, now: u64) -> (r: Result<(), Error>)
        ensures
            match old(self)@.check(caller, now) {
                Ok(next) => r is Ok && final(self)@ == next,
                Err(e) => r == Err::<(), Error>(e) && final(self)@ == old(self)@,
            },
    {
        let rec: CallerRecord = self.get_record(caller);
        match decide(&self.config, &rec, now) {
            Ok(next) => {
                if !rec.whitelisted {
                    self.put(next);
                }
                Ok(())
            },
            Err(e) => Err(e),
        }
    }

    /// Puts `caller` on the whitelist or takes it off; the counters of the
    /// caller stay as they are.
    pub fn set_whitelist(&mut self, caller: Address, whitelisted: bool)
        ensures
            final(self)@ == old(self)@.with_whitelist(caller, whitelisted),
    {
        let rec: CallerRecord = self.get_record(caller);
        self.put(
            CallerRecord {
                caller,
                window_start: rec.window_start,
                operations_in_window: rec.operations_in_window,
                last_op_at: rec.last_op_at,
                whitelisted,
            },
        );
    }

    /// Whether `caller` is on the whitelist.
    pub fn is_whitelisted(&self, caller: Address) -> (b: bool)
        ensures
            b == self@.record_of(caller).whitelisted,
    {
        self.get_record(caller).whitelisted
    }

    /// Replaces the configuration; the next call is judged by the new one.
    pub fn update_config(&mut self, config: RateLimitConfig)
        ensures
            final(self)@ == old(self)@.with_config(config),
    {
        self.config = config;
    }

    /// The configuration in force.
    pub fn get_config(&self) -> (c: RateLimitConfig)
        ensures
            c == self@.config,
    {
        self.config
    }
}

/// The record after the calls at `times`, one after the other, each judged
/// by `judge`; a refused call leaves the record as it is.
pub open spec fn record_after(cfg: RateLimitConfig, rec: CallerRecord, times: Seq<u64>) -> CallerRecord
    decreases times.len(),
{
    if times.len() == 0 {
        rec
    } else {
        let before = record_after(cfg, rec, times.drop_last());
        match judge(cfg, before, times.last()) {
            Ok(next) => next,
            Err(_) => before,
        }
    }
}

/// How many of the calls at `times` are admitted.
pub open spec fn admitted_count(cfg: RateLimitConfig, rec: CallerRecord, times: Seq<u64>) -> nat
    decreases times.len(),
{
    if times.len() == 0 {
        0
    } else {
        let before = record_after(cfg, rec, times.drop_last());
        let earlier = admitted_count(cfg, rec, times.drop_last());
        if judge(cfg, before, times.last()) is Ok {
            earlier + 1
        } else {
            earlier
        }
    }
}

/// Within one window a caller that is not whitelisted gets at most
/// `max_operations` calls through: if every call of `times` falls into the
/// window that `rec` counts in, the admitted calls fit into what the window
/// has left.
pub proof fn lemma_window_admits_at_most_max(cfg: RateLimitConfig, rec: CallerRecord, times: Seq<u64>)
    requires
        !rec.whitelisted,
        rec.operations_in_window <= cfg.max_operations,
        forall|i: int| 0 <= i < times.len() ==> elapsed(times[i], rec.window_start) < cfg.window_size,
    ensures
        rec.operations_in_window + admitted_count(cfg, rec, times) == record_after(
            cfg,
            rec,
            times,
        ).operations_in_window,
        record_after(cfg, rec, times).operations_in_window <= cfg.max_operations,
        record_after(cfg, rec, times).window_start == rec.window_start,
        !record_after(cfg, rec, times).whitelisted,
        admitted_count(cfg, rec, times) <= cfg.max_operations,
    decreases times.len(),
{
    if times.len() > 0 {
        let head = times.drop_last();
        assert forall|i: int| 0 <= i < head.len() implies elapsed(head[i], rec.window_start)
            < cfg.window_size by {
            assert(head[i] == times[i]);
        }
        lemma_window_admits_at_most_max(cfg, rec, head);
    }
}

/// A call that goes through leaves the limiter well formed.
pub proof fn lemma_check_keeps_wf(v: RateLimiterView, caller: Address, now: u64)
    requires
        v.wf(),
    ensures
        v.check(caller, now) matches Ok(next) ==> next.wf() && next.config == v.config,
{
    match judge(v.config, v.record_of(caller), now) {
        Ok(next) => {
            lemma_position_of(v.records, caller);
            lemma_with_record(v, next);
        },
        Err(_) => {},
    }
}

/// A whitelisted caller is admitted whatever the clock and the counters say,
/// and the limiter keeps no trace of the call.
pub proof fn lemma_whitelist_bypasses(v: RateLimiterView, caller: Address, now: u64)
    requires
        v.record_of(caller).whitelisted,
    ensures
        v.check(caller, now) == Ok::<RateLimiterView, Error>(v),
{
}

impl Clone for RateLimiter {
    fn clone(&self) -> (copy: RateLimiter)
        ensures
            copy@ == self@,
    {
        RateLimiter { config: self.config, records: self.records.clone() }
    }
}

impl RateLimiter {
    /// Whether no caller has two records.
    #[verifier::loop_isolation(false)]
    pub fn is_well_formed(&self) -> (b: bool)
        ensures
            b == self@.wf(),
    {
        let n: usize = self.records.len();
        let mut i: usize = 0;
        while i < n
            invariant
                i <= n,
                forall|a: int, b: int|
                    0 <= a < b < n && a < i ==> self.records@[a].caller != self.records@[b].caller,
            decreases n - i,
        {
            let mut j: usize = i + 1;
            while j < n
                invariant
                    i < j <= n,
                    forall|b: int|
                        i < b < j ==> self.records@[i as int].caller != self.records@[b].caller,
                decreases n - j,
            {
                if self.records[i].caller == self.records[j].caller {
                    return false;
                }
                j = j + 1;
            }
            i = i + 1;
        }
        true
    }
}

} // verus!
