//! The circuit breaker: a three-state machine that stops calls to a failing
//! collaborator, and a retry loop that feeds it.

use vstd::prelude::*;
use crate::error::Error;
use crate::types::{Address, MAX_ERROR_LOG_DEFAULT};

verus! {

/// Reported by the breaker while it is open.
pub const ERR_CIRCUIT_OPEN: u32 = 12;

/// Reported by the token adapter when a transfer did not go through.
pub const ERR_TRANSFER_FAILED: u32 = 1001;

/// The position of the breaker.
#[derive(Clone, Copy, Debug, PartialEq, Eq, Structural)]
pub enum CircuitState {
    /// Calls pass; failures are counted.
    Closed,
    /// Calls are refused.
    Open,
    /// Calls pass on probation.
    HalfOpen,
}

/// The thresholds of the breaker and the capacity of its error log.
#[derive(Clone, Copy, Debug, PartialEq, Eq, Structural)]
pub struct CircuitBreakerConfig {
    pub failure_threshold: u32,
    pub success_threshold: u32,
    pub max_error_log: u32,
}

/// One recorded failure.
#[derive(Clone, Copy, Debug, PartialEq, Eq, Structural)]
pub struct ErrorEntry {
    pub timestamp: u64,
    pub error_code: u32,
    pub failure_count_at_time: u32,
}

/// A snapshot of the breaker for monitoring.
#[derive(Clone, Copy, Debug, PartialEq, Eq, Structural)]
pub struct CircuitBreakerStatus {
    pub state: CircuitState,
    pub failure_count: u32,
    pub success_count: u32,
    pub opened_at: u64,
    pub failure_threshold: u32,
    pub success_threshold: u32,
}

/// How often the retry loop may call.
#[derive(Clone, Copy, Debug, PartialEq, Eq, Structural)]
pub struct RetryConfig {
    pub max_attempts: u32,
}

/// What the retry loop reports.
#[derive(Clone, Copy, Debug, PartialEq, Eq, Structural)]
pub struct RetryResult {
    pub succeeded: bool,
    pub attempts: u32,
    pub final_error: u32,
}

/// The breaker with its counters, its log and its administrator.
pub struct CircuitBreaker {
    pub state: CircuitState,
    pub failure_count: u32,
    pub success_count: u32,
    pub opened_at: u64,
    pub config: CircuitBreakerConfig,
    pub error_log: Vec<ErrorEntry>,
    pub admin: Option<Address>,
}

/// The breaker as a value.
pub struct BreakerView {
    pub state: CircuitState,
    pub failure_count: u32,
    pub success_count: u32,
    pub opened_at: u64,
    pub config: CircuitBreakerConfig,
    pub error_log: Seq<ErrorEntry>,
    pub admin: Option<Address>,
}

impl View for CircuitBreaker {
    type V = BreakerView;

    open spec fn view(&self) -> BreakerView {
        BreakerView {
            state: self.state,
            failure_count: self.failure_count,
            success_count: self.success_count,
            opened_at: self.opened_at,
            config: self.config,
            error_log: self.error_log@,
            admin: self.admin,
        }
    }
}

/// `count + 1`, held at the largest value a counter can take.
pub open spec fn bump(count: u32) -> u32 {
    if count < u32::MAX {
        (count + 1) as u32
    } else {
        count
    }
}

fn bumped(count: u32) -> (r: u32)
    ensures
        r == bump(count),
{
    if count < u32::MAX {
        count + 1
    } else {
        count
    }
}

/// The last `max` entries of `log`: the oldest are dropped first.
pub open spec fn keep_last(log: Seq<ErrorEntry>, max: nat) -> Seq<ErrorEntry> {
    if log.len() <= max {
        log
    } else {
        log.skip(log.len() - max)
    }
}

impl CircuitBreakerConfig {
    /// The configuration of a new breaker: open after three failures, close
    /// after one success on probation, keep the last `MAX_ERROR_LOG_DEFAULT`
    /// failures.
    pub open spec fn initial() -> CircuitBreakerConfig {
        CircuitBreakerConfig {
            failure_threshold: 3,
            success_threshold: 1,
            max_error_log: MAX_ERROR_LOG_DEFAULT,
        }
    }
}

impl BreakerView {
    /// The breaker before anything has happened.
    pub open spec fn initial() -> BreakerView {
        BreakerView {
            state: CircuitState::Closed,
            failure_count: 0,
            success_count: 0,
            opened_at: 0,
            config: CircuitBreakerConfig::initial(),
            error_log: Seq::empty(),
            admin: None,
        }
    }

    /// Whether a call may pass.
    pub open spec fn allows(self) -> bool {
        self.state != CircuitState::Open
    }

    /// The breaker after a failure with `code` at `now`.
    ///
    /// An open breaker ignores it. Otherwise the failure is counted and
    /// logged; the breaker opens if it was on probation or if the count has
    /// reached the threshold, and then remembers `now`.
    pub open spec fn after_failure(self, code: u32, now: u64) -> BreakerView {
        if self.state == CircuitState::Open {
            self
        } else {
            let count = bump(self.failure_count);
            let entry = ErrorEntry { timestamp: now, error_code: code, failure_count_at_time: count };
            let opens = self.state == CircuitState::HalfOpen || count
                >= self.config.failure_threshold;
            BreakerView {
                state: if opens { CircuitState::Open } else { CircuitState::Closed },
                failure_count: count,
                success_count: self.success_count,
                opened_at: if opens { now } else { self.opened_at },
                config: self.config,
                error_log: keep_last(self.error_log.push(entry), self.config.max_error_log as nat),
                admin: self.admin,
            }
        }
    }

    /// The breaker after a success.
    ///
    /// Closed: the failure count starts over. Open: ignored. On probation:
    /// the success is counted, and the breaker closes with both counters at
    /// 0 once the count has reached the threshold.
    pub open spec fn after_success(self) -> BreakerView {
        match self.state {
            CircuitState::Closed => BreakerView { failure_count: 0, ..self },
            CircuitState::Open => self,
            CircuitState::HalfOpen => {
                let count = bump(self.success_count);
                if count >= self.config.success_threshold {
                    BreakerView {
                        state: CircuitState::Closed,
                        failure_count: 0,
                        success_count: 0,
                        ..self
                    }
                } else {
                    BreakerView { success_count: count, ..self }
                }
            },
        }
    }

    /// The breaker after the administrator's reset: an open breaker goes on
    /// probation with no success counted; any other stays as it is.
    pub open spec fn after_reset(self) -> BreakerView {
        if self.state == CircuitState::Open {
            BreakerView { state: CircuitState::HalfOpen, success_count: 0, ..self }
        } else {
            self
        }
    }

    /// The breaker forced open at `now`.
    pub open spec fn opened(self, now: u64) -> BreakerView {
        BreakerView { state: CircuitState::Open, opened_at: now, ..self }
    }

    /// The breaker forced closed, both counters at 0.
    pub open spec fn closed(self) -> BreakerView {
        BreakerView { state: CircuitState::Closed, failure_count: 0, success_count: 0, ..self }
    }

    /// The breaker forced on probation, no success counted.
    pub open spec fn half_opened(self) -> BreakerView {
        BreakerView { state: CircuitState::HalfOpen, success_count: 0, ..self }
    }

    /// Whether `caller` may act as the administrator.
    pub open spec fn is_admin(self, caller: Address) -> bool {
        self.admin == Some(caller)
    }

    /// Whether `caller` may name a new administrator: anybody while there is
    /// none, afterwards only the administrator in office.
    pub open spec fn may_set_admin(self, caller: Option<Address>) -> bool {
        self.admin is None || (caller is Some && self.admin == caller)
    }

    /// The breaker after one answer of the guarded operation.
    pub open spec fn after_answer(self, answer: Result<(), u32>, now: u64) -> BreakerView {
        match answer {
            Ok(_) => self.after_success(),
            Err(code) => self.after_failure(code, now),
        }
    }

    /// The retry loop as a function of the answers that the operation gives,
    /// in the order in which it is asked: the breaker afterwards and the
    /// report.
    ///
    /// `left` attempts remain, `made` have failed so far, the last of them
    /// with `last_error`. Before each attempt the breaker is consulted; if it
    /// refuses, the loop stops and reports no attempt and `ERR_CIRCUIT_OPEN`.
    /// The first success ends the loop. A failure is recorded and the loop
    /// goes on until no attempt remains.
    pub open spec fn retry(
        self,
        left: nat,
        answers: Seq<Result<(), u32>>,
        made: nat,
        last_error: u32,
        now: u64,
    ) -> (BreakerView, RetryResult)
        decreases left,
    {
        if left == 0 || answers.len() == 0 {
            (self, RetryResult { succeeded: false, attempts: made as u32, final_error: last_error })
        } else if !self.allows() {
            (self, RetryResult { succeeded: false, attempts: 0, final_error: ERR_CIRCUIT_OPEN })
        } else {
            match answers.first() {
                Ok(_) => (
                    self.after_success(),
                    RetryResult { succeeded: true, attempts: (made + 1) as u32, final_error: 0 },
                ),
                Err(code) => self.after_failure(code, now).retry(
                    (left - 1) as nat,
                    answers.drop_first(),
                    made + 1,
                    code,
                    now,
                ),
            }
        }
    }

    /// How many of the `answers` the retry loop asks for: one for every
    /// attempt that it makes.
    pub open spec fn asked(self, left: nat, answers: Seq<Result<(), u32>>, now: u64) -> nat
        decreases left,
    {
        if left == 0 || answers.len() == 0 || !self.allows() {
            0
        } else {
            match answers.first() {
                Ok(_) => 1,
                Err(code) => 1 + self.after_failure(code, now).asked(
                    (left - 1) as nat,
                    answers.drop_first(),
                    now,
                ),
            }
        }
    }
}

impl CircuitBreaker {
    /// A closed breaker with nothing counted, under
    /// `CircuitBreakerConfig::initial()`, without an administrator.
    pub fn new() -> (b: CircuitBreaker)
        ensures
            b@ == BreakerView::initial(),
    {
        CircuitBreaker {
            state: CircuitState::Closed,
            failure_count: 0,
            success_count: 0,
            opened_at: 0,
            config: CircuitBreakerConfig {
                failure_threshold: 3,
                success_threshold: 1,
                max_error_log: MAX_ERROR_LOG_DEFAULT,
            },
            error_log: Vec::new(),
            admin: None,
        }
    }

    /// Lets a call pass unless the breaker is open.
    pub fn check_and_allow(&self) -> (r: Result<(), u32>)
        ensures
            r == (if self@.allows() {
                Ok::<(), u32>(())
            } else {
                Err::<(), u32>(ERR_CIRCUIT_OPEN)
            }),
    {
        match self.state {
            CircuitState::Open => Err(ERR_CIRCUIT_OPEN),
            _ => Ok(()),
        }
    }

    fn log_failure(&mut self, entry: ErrorEntry)
        ensures
            final(self)@ == (BreakerView {
                error_log: keep_last(
                    old(self)@.error_log.push(entry),
                    old(self)@.config.max_error_log as nat,
                ),
                ..old(self)@
            }),
    {
        self.error_log.push(entry);
        let ghost full = self.error_log@;
        let max: usize = self.config.max_error_log as usize;
        while self.error_log.len() > max
            invariant
                full == old(self)@.error_log.push(entry),
                max == old(self).config.max_error_log,
                self.error_log.len() <= full.len(),
                full.len() <= max ==> self.error_log.len() == full.len(),
                full.len() > max ==> self.error_log.len() >= max,
                self.error_log@ == full.skip(full.len() - self.error_log.len()),
                self.state == old(self).state,
                self.failure_count == old(self).failure_count,
                self.success_count == old(self).success_count,
                self.opened_at == old(self).opened_at,
                self.config == old(self).config,
                self.admin == old(self).admin,
            decreases self.error_log.len(),
        {
            let ghost before = self.error_log@;
            self.error_log.remove(0);
            assert(self.error_log@ == full.skip(full.len() - self.error_log.len())) by {
                assert(before.remove(0) =~= before.skip(1));
                assert(before.skip(1) =~= full.skip(full.len() - before.len() + 1));
            }
        }
        assert(full.skip(0) == full);
    }

    /// Records a failure with `code` at `now`.
    pub fn record_failure(&mut self, code: u32, now: u64)
        ensures
            final(self)@ == old(self)@.after_failure(code, now),
    {
        match self.state {
            CircuitState::Open => {},
            _ => {
                let count: u32 = bumped(self.failure_count);
                let opens: bool = match self.state {
                    CircuitState::HalfOpen => true,
                    _ => count >= self.config.failure_threshold,
                };
                self.failure_count = count;
                if opens {
                    self.state = CircuitState::Open;
                    self.opened_at = now;
                } else {
                    self.state = CircuitState::Closed;
                }
                self.log_failure(
                    ErrorEntry { timestamp: now, error_code: code, failure_count_at_time: count },
                );
            },
        }
    }

    /// Records a success.
    pub fn record_success(&mut self)
        ensures
            final(self)@ == old(self)@.after_success(),
    {
        match self.state {
            CircuitState::Closed => {
                self.failure_count = 0;
            },
            CircuitState::Open => {},
            CircuitState::HalfOpen => {
                let count: u32 = bumped(self.success_count);
                if count >= self.config.success_threshold {
                    self.state = CircuitState::Closed;
                    self.failure_count = 0;
                    self.success_count = 0;
                } else {
                    self.success_count = count;
                }
            },
        }
    }

    /// Records one answer of the guarded operation.
    pub fn record_answer(&mut self, answer: Result<(), u32>, now: u64)
        ensures
            final(self)@ == old(self)@.after_answer(answer, now),
    {
        match answer {
            Ok(_) => self.record_success(),
            Err(code) => self.record_failure(code, now),
        }
    }

    /// The administrator's reset. Anybody else gets `Unauthorized`, and so
    /// does everybody while no administrator is set; the breaker then stays
    /// as it is.
    pub fn reset_circuit_breaker(&mut self, caller: &Address) -> (r: Result<(), Error>)
        ensures
            old(self)@.is_admin(*caller) ==> r is Ok && final(self)@ == old(self)@.after_reset(),
            !old(self)@.is_admin(*caller) ==> r == Err::<(), Error>(Error::Unauthorized) && final(self)@ == old(self)@,
    {
        let allowed: bool = match self.admin {
            Some(a) => a == *caller,
            None => false,
        };
        if !allowed {
            return Err(Error::Unauthorized);
        }
        match self.state {
            CircuitState::Open => {
                self.state = CircuitState::HalfOpen;
                self.success_count = 0;
            },
            _ => {},
        }
        Ok(())
    }

    /// Names `new_admin` as the administrator. While there is none anybody
    /// may do so; afterwards `caller` must be the administrator in office,
    /// or the call fails with `Unauthorized` and changes nothing.
    pub fn set_circuit_admin(&mut self, new_admin: Address, caller: Option<Address>) -> (r: Result<
        (),
        Error,
    >)
        ensures
            old(self)@.may_set_admin(caller) ==> r is Ok && final(self)@ == (BreakerView {
                admin: Some(new_admin),
                ..old(self)@
            }),
            !old(self)@.may_set_admin(caller) ==> r == Err::<(), Error>(Error::Unauthorized)
                && final(self)@ == old(self)@,
    {
        let allowed: bool = match self.admin {
            None => true,
            Some(current) => match caller {
                Some(c) => c == current,
                None => false,
            },
        };
        if !allowed {
            return Err(Error::Unauthorized);
        }
        self.admin = Some(new_admin);
        Ok(())
    }

    /// The administrator, if one is set.
    pub fn get_circuit_admin(&self) -> (a: Option<Address>)
        ensures
            a == self@.admin,
    {
        self.admin
    }

    /// Replaces the configuration; the next event is judged by the new one.
    pub fn set_config(&mut self, config: CircuitBreakerConfig)
        ensures
            final(self)@ == (BreakerView { config, ..old(self)@ }),
    {
        self.config = config;
    }

    /// The configuration in force.
    pub fn get_config(&self) -> (c: CircuitBreakerConfig)
        ensures
            c == self@.config,
    {
        self.config
    }

    /// The position of the breaker.
    pub fn get_state(&self) -> (s: CircuitState)
        ensures
            s == self@.state,
    {
        self.state
    }

    /// Failures counted since the count last started over.
    pub fn get_failure_count(&self) -> (c: u32)
        ensures
            c == self@.failure_count,
    {
        self.failure_count
    }

    /// Successes counted on probation.
    pub fn get_success_count(&self) -> (c: u32)
        ensures
            c == self@.success_count,
    {
        self.success_count
    }

    /// A snapshot of the position, the counters and the thresholds.
    pub fn get_status(&self) -> (s: CircuitBreakerStatus)
        ensures
            s == (CircuitBreakerStatus {
                state: self@.state,
                failure_count: self@.failure_count,
                success_count: self@.success_count,
                opened_at: self@.opened_at,
                failure_threshold: self@.config.failure_threshold,
                success_threshold: self@.config.success_threshold,
            }),
    {
        CircuitBreakerStatus {
            state: self.state,
            failure_count: self.failure_count,
            success_count: self.success_count,
            opened_at: self.opened_at,
            failure_threshold: self.config.failure_threshold,
            success_threshold: self.config.success_threshold,
        }
    }

    /// The logged failures, oldest first.
    pub fn get_error_log(&self) -> (log: Vec<ErrorEntry>)
        ensures
            log@ == self@.error_log,
    {
        self.error_log.clone()
    }

    /// Forces the breaker open at `now`.
    pub fn open_circuit(&mut self, now: u64)
        ensures
            final(self)@ == old(self)@.opened(now),
    {
        self.state = CircuitState::Open;
        self.opened_at = now;
    }

    /// Forces the breaker closed and sets both counters to 0.
    pub fn close_circuit(&mut self)
        ensures
            final(self)@ == old(self)@.closed(),
    {
        self.state = CircuitState::Closed;
        self.failure_count = 0;
        self.success_count = 0;
    }

    /// Forces the breaker on probation with no success counted.
    pub fn half_open_circuit(&mut self)
        ensures
            final(self)@ == old(self)@.half_opened(),
    {
        self.state = CircuitState::HalfOpen;
        self.success_count = 0;
    }

    /// Runs the retry loop on a list of answers instead of a live operation:
    /// the `i`-th attempt is answered by `answers[i]`.
    pub fn replay_with_retry(
        &mut self,
        retry: &RetryConfig,
        now: u64,
        answers: &Vec<Result<(), u32>>,
    ) -> (r: RetryResult)
        ensures
            (final(self)@, r) == old(self)@.retry(retry.max_attempts as nat, answers@, 0, 0, now),
    {
        let mut made: u32 = 0;
        let mut last_error: u32 = 0;
        let mut i: usize = 0;
        assert(answers@.skip(0) == answers@);
        while made < retry.max_attempts && i < answers.len()
            invariant
                made <= retry.max_attempts,
                i == made,
                i <= answers.len(),
                old(self)@.retry(retry.max_attempts as nat, answers@, 0, 0, now) == self@.retry(
                    (retry.max_attempts - made) as nat,
                    answers@.skip(i as int),
                    made as nat,
                    last_error,
                    now,
                ),
            decreases retry.max_attempts - made,
        {
            let ghost rest = answers@.skip(i as int);
            assert(rest.first() == answers@[i as int]);
            assert(rest.drop_first() == answers@.skip(i as int + 1));
            if self.check_and_allow().is_err() {
                return RetryResult { succeeded: false, attempts: 0, final_error: ERR_CIRCUIT_OPEN };
            }
            made = made + 1;
            match answers[i] {
                Ok(_) => {
                    self.record_success();
                    return RetryResult { succeeded: true, attempts: made, final_error: 0 };
                },
                Err(code) => {
                    self.record_failure(code, now);
                    last_error = code;
                },
            }
            i = i + 1;
        }
        RetryResult { succeeded: false, attempts: made, final_error: last_error }
    }

    /// Calls `operation` until it succeeds, at most `retry.max_attempts`
    /// times, and records every answer. Stops without calling when the
    /// breaker refuses.
    ///
    /// The outcome is that of the retry loop on a list of answers of which
    /// every one that the loop asks for is an answer that `operation` gave.
    pub fn execute_with_retry<F: FnMut() -> Result<(), u32>>(
        &mut self,
        retry: &RetryConfig,
        now: u64,
        operation: F,
    ) -> (r: RetryResult)
        requires
            forall|unit: ()| call_requires(operation, unit),
        ensures
            exists|answers: Seq<Result<(), u32>>|
                #![trigger old(self)@.retry(retry.max_attempts as nat, answers, 0, 0, now)]
                answers.len() == retry.max_attempts && (final(self)@, r) == old(self)@.retry(
                    retry.max_attempts as nat,
                    answers,
                    0,
                    0,
                    now,
                ) && forall|i: int|
                    0 <= i < old(self)@.asked(retry.max_attempts as nat, answers, now)
                        ==> call_ensures(operation, (), #[trigger] answers[i]),
    {
        let mut run = operation;
        let ghost given = operation;
        let mut made: u32 = 0;
        let mut last_error: u32 = 0;
        let ghost start = self@;
        let ghost max = retry.max_attempts as nat;
        let ghost seen: Seq<Result<(), u32>> = Seq::empty();
        while made < retry.max_attempts
            invariant
                made <= retry.max_attempts,
                max == retry.max_attempts,
                start == old(self)@,
                seen.len() == made,
                run == given,
                given == operation,
                forall|unit: ()| call_requires(operation, unit),
                forall|i: int| 0 <= i < seen.len() ==> call_ensures(given, (), #[trigger] seen[i]),
                forall|future: Seq<Result<(), u32>>| #[trigger]
                    start.retry(max, seen + future, 0, 0, now) == self@.retry(
                        (max - made) as nat,
                        future,
                        made as nat,
                        last_error,
                        now,
                    ),
                forall|future: Seq<Result<(), u32>>| #[trigger]
                    start.asked(max, seen + future, now) == made + self@.asked(
                        (max - made) as nat,
                        future,
                        now,
                    ),
            decreases retry.max_attempts - made,
        {
            let ghost here = self@;
            let ghost left = (max - made) as nat;
            if self.check_and_allow().is_err() {
                proof {
                    let filler = Seq::new(left, |k: int| Err::<(), u32>(0u32));
                    assert(here.retry(left, filler, made as nat, last_error, now) == (
                        here,
                        RetryResult { succeeded: false, attempts: 0, final_error: ERR_CIRCUIT_OPEN },
                    ));
                    assert(start.retry(max, seen + filler, 0, 0, now) == here.retry(
                        left,
                        filler,
                        made as nat,
                        last_error,
                        now,
                    ));
                    assert(start.asked(max, seen + filler, now) == made + here.asked(
                        left,
                        filler,
                        now,
                    ));
                    assert(here.asked(left, filler, now) == 0);
                    assert((seen + filler).len() == max);
                    assert forall|i: int| 0 <= i < made implies call_ensures(
                        given,
                        (),
                        #[trigger] (seen + filler)[i],
                    ) by {
                        assert((seen + filler)[i] == seen[i]);
                    }
                }
                return RetryResult { succeeded: false, attempts: 0, final_error: ERR_CIRCUIT_OPEN };
            }
            let answer = run();
            match answer {
                Ok(_) => {
                    self.record_success();
                    proof {
                        let filler = Seq::new(left, |k: int| Ok::<(), u32>(()));
                        assert(filler.first() == Ok::<(), u32>(()));
                        assert(here.retry(left, filler, made as nat, last_error, now) == (
                            here.after_success(),
                            RetryResult {
                                succeeded: true,
                                attempts: (made + 1) as u32,
                                final_error: 0,
                            },
                        ));
                        assert(start.retry(max, seen + filler, 0, 0, now) == here.retry(
                            left,
                            filler,
                            made as nat,
                            last_error,
                            now,
                        ));
                        assert(start.asked(max, seen + filler, now) == made + here.asked(
                            left,
                            filler,
                            now,
                        ));
                        assert(here.asked(left, filler, now) == 1);
                        assert((seen + filler).len() == max);
                        assert forall|i: int| 0 <= i < made + 1 implies call_ensures(
                            given,
                            (),
                            #[trigger] (seen + filler)[i],
                        ) by {
                            if i < made {
                                assert((seen + filler)[i] == seen[i]);
                            } else {
                                assert((seen + filler)[i] == filler[0]);
                                assert(answer->Ok_0 == ());
                                assert(filler[0] == answer);
                            }
                        }
                    }
                    return RetryResult { succeeded: true, attempts: made + 1, final_error: 0 };
                },
                Err(code) => {
                    self.record_failure(code, now);
                    proof {
                        let grown = seen.push(Err::<(), u32>(code));
                        assert forall|future: Seq<Result<(), u32>>| #[trigger]
                            start.retry(max, grown + future, 0, 0, now) == self@.retry(
                                (left - 1) as nat,
                                future,
                                (made + 1) as nat,
                                code,
                                now,
                            ) by {
                            let longer = seq![Err::<(), u32>(code)] + future;
                            assert(grown + future =~= seen + longer);
                            assert(longer.first() == Err::<(), u32>(code));
                            assert(longer.drop_first() =~= future);
                            assert(start.retry(max, seen + longer, 0, 0, now) == here.retry(
                                left,
                                longer,
                                made as nat,
                                last_error,
                                now,
                            ));
                        }
                        assert forall|future: Seq<Result<(), u32>>| #[trigger]
                            start.asked(max, grown + future, now) == made + 1 + self@.asked(
                                (left - 1) as nat,
                                future,
                                now,
                            ) by {
                            let longer = seq![Err::<(), u32>(code)] + future;
                            assert(grown + future =~= seen + longer);
                            assert(longer.first() == Err::<(), u32>(code));
                            assert(longer.drop_first() =~= future);
                            assert(start.asked(max, seen + longer, now) == made + here.asked(
                                left,
                                longer,
                                now,
                            ));
                        }
                        assert forall|i: int| 0 <= i < grown.len() implies call_ensures(
                            given,
                            (),
                            #[trigger] grown[i],
                        ) by {
                            if i < seen.len() {
                                assert(grown[i] == seen[i]);
                            }
                        }
                        seen = grown;
                    }
                    last_error = code;
                    made = made + 1;
                },
            }
        }
        proof {
            let none = Seq::<Result<(), u32>>::empty();
            assert(seen + none =~= seen);
            assert(start.retry(max, seen + none, 0, 0, now) == self@.retry(
                0,
                none,
                made as nat,
                last_error,
                now,
            ));
            assert(start.asked(max, seen + none, now) == made + self@.asked(0, none, now));
        }
        RetryResult { succeeded: false, attempts: made, final_error: last_error }
    }
}

/// The breaker after `n` failures in a row, each with `code` at `now`.
pub open spec fn after_failures(b: BreakerView, n: nat, code: u32, now: u64) -> BreakerView
    decreases n,
{
    if n == 0 {
        b
    } else {
        after_failures(b, (n - 1) as nat, code, now).after_failure(code, now)
    }
}

/// A closed breaker with nothing counted opens at the failure that makes the
/// count reach the threshold, and at no earlier one.
pub proof fn lemma_opens_exactly_at_threshold(b: BreakerView, n: nat, code: u32, now: u64)
    requires
        b.state == CircuitState::Closed,
        b.failure_count == 0,
        b.config.failure_threshold >= 1,
        n <= b.config.failure_threshold,
    ensures
        after_failures(b, n, code, now).failure_count == n,
        after_failures(b, n, code, now).config == b.config,
        n < b.config.failure_threshold ==> after_failures(b, n, code, now).state
            == CircuitState::Closed,
        n == b.config.failure_threshold ==> after_failures(b, n, code, now).state
            == CircuitState::Open && after_failures(b, n, code, now).opened_at == now,
    decreases n,
{
    if n > 0 {
        lemma_opens_exactly_at_threshold(b, (n - 1) as nat, code, now);
    }
}

/// An open breaker refuses every call and ignores successes and further
/// failures.
pub proof fn lemma_open_stays_open(b: BreakerView, code: u32, now: u64)
    requires
        b.state == CircuitState::Open,
    ensures
        !b.allows(),
        b.after_success() == b,
        b.after_failure(code, now) == b,
{
}

/// The administrator's reset puts an open breaker on probation, with no
/// success counted, and calls pass again.
pub proof fn lemma_reset_puts_on_probation(b: BreakerView)
    requires
        b.state == CircuitState::Open,
    ensures
        b.after_reset().state == CircuitState::HalfOpen,
        b.after_reset().success_count == 0,
        b.after_reset().allows(),
        b.after_reset().after_reset() == b.after_reset(),
{
}

/// On probation with a success threshold of one, a single success closes the
/// breaker and the failure count starts over.
pub proof fn lemma_one_success_closes(b: BreakerView)
    requires
        b.state == CircuitState::HalfOpen,
        b.config.success_threshold <= 1,
    ensures
        b.after_success().state == CircuitState::Closed,
        b.after_success().failure_count == 0,
        b.after_success().success_count == 0,
{
}

/// On probation below the threshold a success is counted and the breaker
/// stays on probation.
pub proof fn lemma_probation_counts_successes(b: BreakerView)
    requires
        b.state == CircuitState::HalfOpen,
        b.success_count + 1 < b.config.success_threshold,
    ensures
        b.after_success().state == CircuitState::HalfOpen,
        b.after_success().success_count == b.success_count + 1,
{
}

/// A failure on probation opens the breaker again, whatever the threshold.
pub proof fn lemma_failure_on_probation_reopens(b: BreakerView, code: u32, now: u64)
    requires
        b.state == CircuitState::HalfOpen,
    ensures
        b.after_failure(code, now).state == CircuitState::Open,
        b.after_failure(code, now).opened_at == now,
        !b.after_failure(code, now).allows(),
{
}

/// The error log never holds more entries than the configuration permits
/// once a failure has been logged under it, and the newest entry is the last.
pub proof fn lemma_error_log_is_bounded(b: BreakerView, code: u32, now: u64)
    requires
        b.state != CircuitState::Open,
    ensures
        b.after_failure(code, now).error_log.len() <= b.config.max_error_log,
        b.config.max_error_log > 0 ==> b.after_failure(code, now).error_log.last() == (ErrorEntry {
            timestamp: now,
            error_code: code,
            failure_count_at_time: bump(b.failure_count),
        }),
{
}

impl Clone for CircuitBreaker {
    fn clone(&self) -> (copy: CircuitBreaker)
        ensures
            copy@ == self@,
    {
        CircuitBreaker {
            state: self.state,
            failure_count: self.failure_count,
            success_count: self.success_count,
            opened_at: self.opened_at,
            config: self.config,
            error_log: self.error_log.clone(),
            admin: self.admin,
        }
    }
}

} // verus!
