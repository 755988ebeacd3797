//! Status reporting decisions: what a state transition announces to
//! subscribers, when a lock warning is due, and the status line shown in
//! status bars. The sending itself (files, sockets, notification tools)
//! is the caller's; everything here is a pure decision over the state and
//! the clock readings handed in. Times are in milliseconds.

use vstd::prelude::*;
use vstd::string::StringExecFns;

use crate::decimal::{dec_digits, u64_to_string};
use crate::scheduler::{sub_floor, BreakState};

verus! {

/// One entry of the state-update stream a remote status relay consumes.
#[derive(Clone, Copy, Debug, PartialEq, Eq, Structural)]
pub enum StateUpdate {
    BreakStarted,
    BreakEnded,
    Reset,
    LongReset,
    ParameterChange { work_duration: u64, break_duration: u64 },
}

/// The update each state transition announces.
pub open spec fn spec_state_update(s: BreakState) -> StateUpdate {
    match s {
        BreakState::Waiting => StateUpdate::Reset,
        BreakState::Work { .. } => StateUpdate::BreakEnded,
        BreakState::Break { .. } => StateUpdate::BreakStarted,
        BreakState::WaitingLongReset { .. } => StateUpdate::LongReset,
    }
}

/// The update to push to subscribers when `s` has just been entered.
pub fn state_update(s: &BreakState) -> (r: StateUpdate)
    ensures
        r == spec_state_update(*s),
{
    match s {
        BreakState::Waiting => StateUpdate::Reset,
        BreakState::Work { .. } => StateUpdate::BreakEnded,
        BreakState::Break { .. } => StateUpdate::BreakStarted,
        BreakState::WaitingLongReset { .. } => StateUpdate::LongReset,
    }
}

/// How a lock warning is delivered.
#[derive(Clone, Copy, Debug, PartialEq, Eq, Structural)]
pub enum NotificationType {
    /// A desktop notification.
    System,
    /// A sound.
    Audio,
}

impl NotificationType {
    /// The name used on the command line for this delivery.
    pub fn label(&self) -> (r: String)
        ensures
            *self is System ==> r@ == "system"@,
            *self is Audio ==> r@ == "audio"@,
    {
        match self {
            NotificationType::System => "system".to_owned(),
            NotificationType::Audio => "audio".to_owned(),
        }
    }
}

/// Minutes and hours of a duration, rounded to the nearest minute:
/// "25m", or "2h:05m" past the hour. Minute-level rounding, half up.
pub open spec fn fmt_mm_hh_spec(secs: nat) -> Seq<char> {
    let mm = ((secs + 30) / 60) % 60;
    let hh = (secs + 1800) / 3600;
    if hh == 0 {
        dec_digits(mm) + seq!['m']
    } else {
        dec_digits(hh) + seq!['h', ':'] + dec_digits(mm) + seq!['m']
    }
}

/// A duration as status bars show it: seconds up to a minute, rounded
/// minutes and hours beyond.
pub open spec fn fmt_dur_spec(secs: nat) -> Seq<char> {
    if secs > 60 {
        fmt_mm_hh_spec(secs)
    } else {
        dec_digits(secs) + seq!['s']
    }
}

/// Renders a duration given in seconds for the status line.
pub fn fmt_mm_hh(secs: u64) -> (r: String)
    requires
        secs + 1800 <= u64::MAX,
    ensures
        r@ == fmt_mm_hh_spec(secs as nat),
{
    let mm = ((secs + 30) / 60) % 60;
    let hh = (secs + 1800) / 3600;
    if hh == 0 {
        let mut s = u64_to_string(mm);
        s.append("m");
        proof {
            reveal_strlit("m");
            assert(s@ =~= fmt_mm_hh_spec(secs as nat));
        }
        s
    } else {
        let mut s = u64_to_string(hh);
        s.append("h:");
        let mins = u64_to_string(mm);
        s.append(mins.as_str());
        s.append("m");
        proof {
            reveal_strlit("h:");
            reveal_strlit("m");
            assert("h:"@ =~= seq!['h', ':']);
            assert(s@ =~= fmt_mm_hh_spec(secs as nat));
        }
        s
    }
}

/// Renders a duration given in seconds for the status line.
pub fn fmt_dur(secs: u64) -> (r: String)
    requires
        secs + 1800 <= u64::MAX,
    ensures
        r@ == fmt_dur_spec(secs as nat),
{
    if secs > 60 {
        fmt_mm_hh(secs)
    } else {
        let mut s = u64_to_string(secs);
        s.append("s");
        proof {
            reveal_strlit("s");
            assert(s@ =~= fmt_dur_spec(secs as nat));
        }
        s
    }
}

/// The status line for the current state, given the clock `now`, the
/// idle-since reading, and the short break length.
pub open spec fn statusbar_msg_spec(
    state: BreakState,
    now: u64,
    idle_since: u64,
    break_duration: u64,
) -> Seq<char> {
    let idle = sub_floor(now, idle_since);
    match state {
        BreakState::Waiting => seq!['-'],
        BreakState::WaitingLongReset { long_break_duration } => "long reset in "@ + fmt_dur_spec(
            (sub_floor(long_break_duration, idle) / 1000) as nat,
        ),
        BreakState::Work { next_break } => if idle > 30000 {
            "idle, reset in "@ + fmt_dur_spec((sub_floor(break_duration, idle) / 1000) as nat)
        } else {
            "break in "@ + fmt_dur_spec((sub_floor(next_break, now) / 1000) as nat)
        },
        BreakState::Break { next_work } => "unlocks in "@ + fmt_dur_spec(
            (sub_floor(next_work, now) / 1000) as nat,
        ),
    }
}

/// Builds the status line pushed to the status file and the relay.
pub fn format_statusbar_msg(state: &BreakState, now: u64, idle_since: u64, break_duration: u64) -> (
    r: String)
    ensures
        r@ == statusbar_msg_spec(*state, now, idle_since, break_duration),
{
    let idle = if now >= idle_since {
        now - idle_since
    } else {
        0
    };
    match state {
        BreakState::Waiting => {
            let s = "-".to_owned();
            proof {
                reveal_strlit("-");
                assert(s@ =~= seq!['-']);
            }
            s
        },
        BreakState::WaitingLongReset { long_break_duration } => {
            let left = if *long_break_duration >= idle {
                *long_break_duration - idle
            } else {
                0
            };
            let mut s = "long reset in ".to_owned();
            let d = fmt_dur(left / 1000);
            s.append(d.as_str());
            s
        },
        BreakState::Work { next_break } => {
            if idle > 30000 {
                let left = if break_duration >= idle {
                    break_duration - idle
                } else {
                    0
                };
                let mut s = "idle, reset in ".to_owned();
                let d = fmt_dur(left / 1000);
                s.append(d.as_str());
                s
            } else {
                let left = if *next_break >= now {
                    *next_break - now
                } else {
                    0
                };
                let mut s = "break in ".to_owned();
                let d = fmt_dur(left / 1000);
                s.append(d.as_str());
                s
            }
        },
        BreakState::Break { next_work } => {
            let left = if *next_work >= now {
                *next_work - now
            } else {
                0
            };
            let mut s = "unlocks in ".to_owned();
            let d = fmt_dur(left / 1000);
            s.append(d.as_str());
            s
        },
    }
}

/// `n` spaces.
pub open spec fn spaces(n: nat) -> Seq<char>
    decreases n,
{
    if n == 0 {
        Seq::empty()
    } else {
        spaces((n - 1) as nat).push(' ')
    }
}

/// Pads the status line to the longest length written so far: the status
/// file is never shrunk, else a reader could catch a truncated message,
/// so shorter lines are space-padded to cover the previous one.
pub fn pad_status_msg(msg: &str, max_len: usize) -> (r: String)
    requires
        msg@.len() <= usize::MAX,
    ensures
        msg@.len() >= max_len ==> r@ == msg@,
        msg@.len() < max_len ==> r@ == msg@ + spaces((max_len - msg@.len()) as nat),
{
    let mut r = msg.to_owned();
    let len = msg.unicode_len();
    if len >= max_len {
        proof {
            assert(r@ =~= msg@);
        }
        return r;
    }
    let mut i: usize = len;
    while i < max_len
        invariant
            len == msg@.len(),
            len <= i <= max_len,
            r@ == msg@ + spaces((i - len) as nat),
        decreases max_len - i,
    {
        r.append(" ");
        proof {
            reveal_strlit(" ");
            assert(" "@ =~= seq![' ']);
            assert(r@ =~= msg@ + spaces((i + 1 - len) as nat));
        }
        i += 1;
    }
    r
}

/// How long the status integrator may sleep before recomputing the line:
/// not at all while a countdown is showing, forever while waiting.
pub fn poll_timeout(state: &BreakState) -> (r: Option<u64>)
    ensures
        (*state is Waiting) ==> r is None,
        !(*state is Waiting) ==> r == Some(1000u64),
{
    match state {
        BreakState::Waiting => None,
        _ => Some(1000),
    }
}

/// Debounce margin between repeated lock warnings.
pub const NOTIFY_MARGIN: u64 = 1000;

/// One lock-warning configuration: how far ahead of the event to warn,
/// how to deliver it, and when a warning last fired.
pub struct NotifyConfig {
    pub lead_time: u64,
    pub types: Vec<NotificationType>,
    pub last_issued: u64,
}

impl NotifyConfig {
    /// Whether a warning is due: the event is nearer than the lead time
    /// and no warning fired recently (debounce).
    pub open spec fn due(self, now: u64, next_at: u64) -> bool {
        sub_floor(next_at, now) < self.lead_time && sub_floor(now, self.last_issued)
            > self.lead_time + NOTIFY_MARGIN
    }

    /// Emits the warning text when one is due, remembering the time so
    /// the warning is not repeated within the debounce window.
    pub fn emit_if_needed(&mut self, now: u64, next_at: u64, event_description: &str) -> (r: Option<
        String,
    >)
        requires
            old(self).lead_time + NOTIFY_MARGIN <= u64::MAX,
            old(self).lead_time / 1000 + 1800 <= u64::MAX,
        ensures
            (r is Some) == old(self).due(now, next_at),
            r matches Some(msg) ==> msg@ == event_description@ + " in "@ + crate::integration::fmt_dur_spec(
                (old(self).lead_time / 1000) as nat,
            ),
            old(self).due(now, next_at) ==> *final(self) == (NotifyConfig {
                last_issued: now,
                ..*old(self)
            }),
            !old(self).due(now, next_at) ==> *final(self) == *old(self),
    {
        let until = if next_at >= now {
            next_at - now
        } else {
            0
        };
        let since_last = if now >= self.last_issued {
            now - self.last_issued
        } else {
            0
        };
        if until < self.lead_time && since_last > self.lead_time + NOTIFY_MARGIN {
            self.last_issued = now;
            let mut msg = String::new();
            let lead = fmt_dur(self.lead_time / 1000);
            msg.append(event_description);
            msg.append(" in ");
            msg.append(lead.as_str());
            Some(msg)
        } else {
            None
        }
    }
}

/// Both warning configurations plus the verbose state notifications.
pub struct NotifyConfigs {
    pub break_start: NotifyConfig,
    pub break_end: NotifyConfig,
    pub state_notifications: bool,
}

/// Copies a list of delivery kinds.
fn copy_types(v: &Vec<NotificationType>) -> (r: Vec<NotificationType>)
    ensures
        r@ == v@,
{
    let mut r: Vec<NotificationType> = Vec::new();
    let mut i: usize = 0;
    while i < v.len()
        invariant
            0 <= i <= v@.len(),
            r@ == v@.take(i as int),
        decreases v@.len() - i,
    {
        r.push(v[i]);
        proof {
            assert(r@ =~= v@.take(i + 1));
        }
        i += 1;
    }
    proof {
        assert(v@.take(v@.len() as int) == v@);
    }
    r
}

impl NotifyConfigs {
    /// Builds the warning configurations from the run arguments: the lock
    /// warning lead and delivery kinds apply to both edges of the break.
    pub fn from_args(args: &crate::cli::RunArgs, now: u64) -> (r: NotifyConfigs)
        ensures
            r.break_start.lead_time == (match args.lock_warning {
                Some(l) => l,
                None => 0,
            }),
            r.break_start.types@ == args.lock_warning_type@,
            r.break_start.last_issued == now,
            r.break_end.lead_time == r.break_start.lead_time,
            r.break_end.types@ == args.lock_warning_type@,
            r.break_end.last_issued == now,
            r.state_notifications == args.notifications,
    {
        let lead = match args.lock_warning {
            Some(l) => l,
            None => 0,
        };
        NotifyConfigs {
            break_start: NotifyConfig {
                lead_time: lead,
                types: copy_types(&args.lock_warning_type),
                last_issued: now,
            },
            break_end: NotifyConfig {
                lead_time: lead,
                types: copy_types(&args.lock_warning_type),
                last_issued: now,
            },
            state_notifications: args.notifications,
        }
    }
}

/// The notifications one status tick asks for.
pub struct NotifyPlan {
    /// A lock or unlock warning that is due, if any.
    pub warning: Option<String>,
    /// The status line, to be sent as a state-change notification.
    pub state_note: Option<String>,
}

/// Decides the notifications for the current state: a "locking" warning
/// ahead of the break, an "unlocking" warning ahead of its end, and the
/// status line as a notification on state changes when verbose
/// notifications are on.
pub fn notify_if_needed(
    state: &BreakState,
    notify: &mut NotifyConfigs,
    state_changed: bool,
    statusbar_msg: &String,
    now: u64,
) -> (r: NotifyPlan)
    requires
        old(notify).break_start.lead_time + NOTIFY_MARGIN <= u64::MAX,
        old(notify).break_start.lead_time / 1000 + 1800 <= u64::MAX,
        old(notify).break_end.lead_time + NOTIFY_MARGIN <= u64::MAX,
        old(notify).break_end.lead_time / 1000 + 1800 <= u64::MAX,
    ensures
        (r.state_note is Some) == (old(notify).state_notifications && state_changed),
        r.state_note matches Some(m) ==> m@ == statusbar_msg@,
        state matches BreakState::Work { next_break } ==> ((r.warning is Some) == old(
            notify,
        ).break_start.due(now, *next_break)),
        state matches BreakState::Break { next_work } ==> ((r.warning is Some) == old(
            notify,
        ).break_end.due(now, *next_work)),
        (*state is Waiting || *state is WaitingLongReset) ==> (r.warning is None && *final(notify)
            == *old(notify)),
        final(notify).state_notifications == old(notify).state_notifications,
{
    let warning = match state {
        BreakState::Work { next_break } => notify.break_start.emit_if_needed(
            now,
            *next_break,
            "locking",
        ),
        BreakState::Break { next_work } => notify.break_end.emit_if_needed(
            now,
            *next_work,
            "unlocking",
        ),
        _ => None,
    };
    let state_note = if notify.state_notifications && state_changed {
        Some(statusbar_msg.clone())
    } else {
        None
    };
    proof {
        if notify.state_notifications && state_changed {
            assert(state_note matches Some(m) && m@ == statusbar_msg@);
        }
    }
    NotifyPlan { warning, state_note }
}

} // verus!
