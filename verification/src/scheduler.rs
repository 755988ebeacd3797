//! The work/break scheduling state machine.
//!
//! Exactly one instance drives the cycle Waiting → Work → Break, with an
//! optional long-break accrual mode: active work time is accumulated, and
//! once it crosses a configured threshold the next break is the long one.
//! The machine here is purely decisions — the caller performs the waiting,
//! locking, sleeping and unlocking around it and reports what happened.

use vstd::prelude::*;

verus! {

/// The scheduler's mode. Exactly one instance lives in the scheduler and
/// transitions are strictly sequential.
#[derive(Clone, Copy, Debug, PartialEq, Eq, Structural)]
pub enum BreakState {
    /// No work session running; waiting for the first activity.
    Waiting,
    /// Waiting, but with accumulated work time that a long idle period
    /// would forgive.
    WaitingLongReset { long_break_duration: u64 },
    /// A work session runs until the instant `next_break`.
    Work { next_break: u64 },
    /// Input is locked until the instant `next_work`.
    Break { next_work: u64 },
}

/// Configuration rejected before any work starts.
#[derive(Clone, Copy, Debug, PartialEq, Eq, Structural)]
pub enum ConfigError {
    /// The list of filters to block is empty: there is nothing to enforce.
    NoDevicesConfigured,
    /// A configured long break does not exceed the short break.
    LongBreakTooShort,
}

/// What the caller should wait for next.
#[derive(Clone, Copy, Debug, PartialEq, Eq, Structural)]
pub enum WaitDecision {
    /// Block until the first input activity, without a deadline.
    WaitForActivity,
    /// Block for activity at most `timeout`; on timeout the accumulated
    /// work time is forgiven.
    WaitLongReset { timeout: u64 },
}

/// The break the scheduler decided to take.
#[derive(Clone, Copy, Debug, PartialEq, Eq, Structural)]
pub struct BreakPlan {
    /// How long input stays locked, the idle time already served deducted.
    pub len: u64,
    /// Whether this is the long break (which resets the accumulator).
    pub long: bool,
}

/// `a - b`, stopping at zero. Idle time can exceed the elapsed work time
/// when clock granularity or scheduling is unlucky; a would-be negative
/// work increment or break length is treated as zero.
pub open spec fn sub_floor(a: u64, b: u64) -> u64 {
    if a >= b {
        (a - b) as u64
    } else {
        0
    }
}

/// `a + b`, stopping at the top of the range.
pub open spec fn add_cap(a: u64, b: u64) -> u64 {
    if a + b > u64::MAX {
        u64::MAX
    } else {
        (a + b) as u64
    }
}

/// The scheduler: duration parameters, the current [`BreakState`], and the
/// accumulator of active work time since the last long break. All times are
/// in milliseconds; instants count from an arbitrary process-wide origin.
#[derive(Clone, Copy, Debug)]
pub struct Scheduler {
    /// Length of a work session before a break is owed.
    pub work_duration: u64,
    /// Length of a short break; also the idle time that resets a session.
    pub break_duration: u64,
    /// Length of the long break, if the accrual mode is on.
    pub long_break_duration: Option<u64>,
    /// Active work time after which the next break becomes the long one.
    pub work_between_long_breaks: Option<u64>,
    /// Current mode.
    pub state: BreakState,
    /// Active work time since the last long break or forgiveness.
    pub worked_since_long_break: u64,
}

impl Scheduler {
    /// The one duration relation the core validates: a configured long
    /// break must exceed the short break.
    pub open spec fn wf(self) -> bool {
        match self.long_break_duration {
            Some(l) => l > self.break_duration,
            None => true,
        }
    }

    /// The longest break this configuration can order.
    pub open spec fn break_len_cap(self) -> u64 {
        match self.long_break_duration {
            Some(l) => if l > self.break_duration {
                l
            } else {
                self.break_duration
            },
            None => self.break_duration,
        }
    }

    /// Builds a scheduler in `Waiting` with an empty accumulator, or
    /// rejects the configuration.
    pub fn new(
        work_duration: u64,
        break_duration: u64,
        long_break_duration: Option<u64>,
        work_between_long_breaks: Option<u64>,
    ) -> (r: Result<Scheduler, ConfigError>)
        ensures
            (r is Ok) <==> (match long_break_duration {
                Some(l) => l > break_duration,
                None => true,
            }),
            r matches Ok(s) ==> s == (Scheduler {
                work_duration,
                break_duration,
                long_break_duration,
                work_between_long_breaks,
                state: BreakState::Waiting,
                worked_since_long_break: 0,
            }),
            r matches Ok(s) ==> s.wf(),
            r matches Err(e) ==> e == ConfigError::LongBreakTooShort,
    {
        match long_break_duration {
            Some(l) if l <= break_duration => Err(ConfigError::LongBreakTooShort),
            _ => Ok(
                Scheduler {
                    work_duration,
                    break_duration,
                    long_break_duration,
                    work_between_long_breaks,
                    state: BreakState::Waiting,
                    worked_since_long_break: 0,
                },
            ),
        }
    }

    /// Entering the waiting phase: with accumulated work and a long break
    /// configured, wait in `WaitingLongReset` with a deadline of
    /// long break minus short break; otherwise wait in `Waiting` without
    /// one.
    pub open spec fn spec_begin_wait(s: Scheduler) -> (Scheduler, WaitDecision) {
        match s.long_break_duration {
            Some(l) if s.worked_since_long_break > 0 => (
                Scheduler { state: BreakState::WaitingLongReset { long_break_duration: l }, ..s },
                WaitDecision::WaitLongReset { timeout: sub_floor(l, s.break_duration) },
            ),
            _ => (Scheduler { state: BreakState::Waiting, ..s }, WaitDecision::WaitForActivity),
        }
    }

    pub fn begin_wait(&mut self) -> (r: WaitDecision)
        ensures
            (*final(self), r) == Scheduler::spec_begin_wait(*old(self)),
    {
        match self.long_break_duration {
            Some(l) if self.worked_since_long_break > 0 => {
                self.state = BreakState::WaitingLongReset { long_break_duration: l };
                WaitDecision::WaitLongReset {
                    timeout: if l >= self.break_duration {
                        l - self.break_duration
                    } else {
                        0
                    },
                }
            },
            _ => {
                self.state = BreakState::Waiting;
                WaitDecision::WaitForActivity
            },
        }
    }

    /// The `WaitingLongReset` deadline passed without activity: the user
    /// has been idle for at least the long break, so the accumulated work
    /// time is forgiven without any break being entered.
    pub open spec fn spec_long_reset_timeout(s: Scheduler) -> Scheduler {
        Scheduler { state: BreakState::Waiting, worked_since_long_break: 0, ..s }
    }

    pub fn long_reset_timeout(&mut self)
        ensures
            *final(self) == Scheduler::spec_long_reset_timeout(*old(self)),
    {
        self.worked_since_long_break = 0;
        self.state = BreakState::Waiting;
    }

    /// First activity seen: a work session starts, with the break owed one
    /// work duration from now.
    pub open spec fn spec_begin_work(s: Scheduler, now: u64) -> Scheduler {
        Scheduler { state: BreakState::Work { next_break: (now + s.work_duration) as u64 }, ..s }
    }

    pub fn begin_work(&mut self, now: u64)
        requires
            now + old(self).work_duration <= u64::MAX,
        ensures
            *final(self) == Scheduler::spec_begin_work(*old(self), now),
    {
        self.state = BreakState::Work { next_break: now + self.work_duration };
    }

    /// The user paused long enough mid-session that the formal break is
    /// skipped: the session's active share — elapsed time minus one break
    /// worth of idling — joins the accumulator, and waiting starts over.
    pub open spec fn spec_note_reset(s: Scheduler, elapsed: u64) -> Scheduler {
        Scheduler {
            state: BreakState::Waiting,
            worked_since_long_break: add_cap(
                s.worked_since_long_break,
                sub_floor(elapsed, s.break_duration),
            ),
            ..s
        }
    }

    pub fn note_reset(&mut self, elapsed: u64)
        ensures
            *final(self) == Scheduler::spec_note_reset(*old(self), elapsed),
    {
        let active = if elapsed >= self.break_duration {
            elapsed - self.break_duration
        } else {
            0
        };
        self.worked_since_long_break = if self.worked_since_long_break <= u64::MAX - active {
            self.worked_since_long_break + active
        } else {
            u64::MAX
        };
        self.state = BreakState::Waiting;
    }

    /// A break is owed. The session's active time (elapsed minus the idle
    /// tail already served) joins the accumulator; the break is the long
    /// one exactly when both long-break parameters are configured and the
    /// accumulator reaches the threshold — the long path resets the
    /// accumulator to zero. The idle tail is deducted from the break
    /// length either way.
    pub open spec fn spec_start_break(s: Scheduler, now: u64, user_idle: u64, elapsed: u64) -> (
        Scheduler,
        BreakPlan,
    ) {
        let accum = add_cap(s.worked_since_long_break, sub_floor(elapsed, user_idle));
        let long = match (s.long_break_duration, s.work_between_long_breaks) {
            (Some(l), Some(between)) => accum >= between,
            _ => false,
        };
        if long {
            let len = sub_floor(s.long_break_duration->0, user_idle);
            (
                Scheduler {
                    state: BreakState::Break { next_work: (now + len) as u64 },
                    worked_since_long_break: 0,
                    ..s
                },
                BreakPlan { len, long: true },
            )
        } else {
            let len = sub_floor(s.break_duration, user_idle);
            (
                Scheduler {
                    state: BreakState::Break { next_work: (now + len) as u64 },
                    worked_since_long_break: accum,
                    ..s
                },
                BreakPlan { len, long: false },
            )
        }
    }

    pub fn start_break(&mut self, now: u64, user_idle: u64, elapsed: u64) -> (r: BreakPlan)
        requires
            now + old(self).break_len_cap() <= u64::MAX,
        ensures
            (*final(self), r) == Scheduler::spec_start_break(*old(self), now, user_idle, elapsed),
    {
        let active = if elapsed >= user_idle {
            elapsed - user_idle
        } else {
            0
        };
        let accum = if self.worked_since_long_break <= u64::MAX - active {
            self.worked_since_long_break + active
        } else {
            u64::MAX
        };
        let long = match (self.long_break_duration, self.work_between_long_breaks) {
            (Some(_), Some(between)) => accum >= between,
            _ => false,
        };
        if long {
            let l = match self.long_break_duration {
                Some(l) => l,
                None => 0,  // unreachable: `long` implies the duration is set
            };
            let len = if l >= user_idle {
                l - user_idle
            } else {
                0
            };
            self.worked_since_long_break = 0;
            self.state = BreakState::Break { next_work: now + len };
            BreakPlan { len, long: true }
        } else {
            let len = if self.break_duration >= user_idle {
                self.break_duration - user_idle
            } else {
                0
            };
            self.worked_since_long_break = accum;
            self.state = BreakState::Break { next_work: now + len };
            BreakPlan { len, long: false }
        }
    }

    /// The break has been slept through and the guards are to be released:
    /// back to waiting.
    pub open spec fn spec_end_break(s: Scheduler) -> Scheduler {
        Scheduler { state: BreakState::Waiting, ..s }
    }

    pub fn end_break(&mut self)
        ensures
            *final(self) == Scheduler::spec_end_break(*old(self)),
    {
        self.state = BreakState::Waiting;
    }
}

/// Checks the startup requirement that there is something to enforce.
pub fn validate_filters(filters: &Vec<crate::config::InputFilter>) -> (r: Result<(), ConfigError>)
    ensures
        (r is Ok) <==> filters@.len() > 0,
        r matches Err(e) ==> e == ConfigError::NoDevicesConfigured,
{
    if filters.len() == 0 {
        Err(ConfigError::NoDevicesConfigured)
    } else {
        Ok(())
    }
}

/// Taking the long break leaves the accumulator at exactly zero.
pub proof fn lemma_long_break_resets_accumulator(
    s: Scheduler,
    now: u64,
    user_idle: u64,
    elapsed: u64,
)
    ensures
        Scheduler::spec_start_break(s, now, user_idle, elapsed).1.long ==> Scheduler::spec_start_break(
            s,
            now,
            user_idle,
            elapsed,
        ).0.worked_since_long_break == 0,
{
}

/// Idling through the `WaitingLongReset` window zeroes the accumulator
/// without any `Break` state being entered: the machine goes straight back
/// to `Waiting`.
pub proof fn lemma_long_reset_forgiveness(s: Scheduler)
    ensures
        Scheduler::spec_long_reset_timeout(s).worked_since_long_break == 0,
        Scheduler::spec_long_reset_timeout(s).state is Waiting,
{
}

} // verus!
