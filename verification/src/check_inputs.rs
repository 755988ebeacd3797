//! Idle-time measurement and the reset-or-break decision.
//!
//! One reader per device node feeds activity ticks into an aggregator that
//! keeps an idle-since clock and raises a notification whenever a full
//! break duration passes without input. [`InactivityTracker::reset_or_timeout`]
//! decides from those ticks whether a running work session is formally
//! reset (the user already paused long enough) or a break is owed.

use vstd::prelude::*;

use crate::config::{seq_contains_string, InputFilter};
use crate::identity::NewInput;

verus! {

/// Outcome of waiting out a work session.
#[derive(Clone, Copy, Debug, PartialEq, Eq, Structural)]
pub enum TrackResult {
    /// The user idled a full break duration mid-session: skip the formal
    /// break and start waiting again.
    ShouldReset,
    /// The session ran its full length: a break is owed. `user_idle` is
    /// the idle time already served at the session's end.
    ShouldBreak { user_idle: u64 },
}

/// Decides between session resets and owed breaks from activity ticks.
/// Times are in milliseconds.
#[derive(Clone, Copy, Debug)]
pub struct InactivityTracker {
    /// Idle time that counts as having taken the break already.
    pub break_duration: u64,
}

/// The start of the silence period before the tick at position `i`: the
/// session start for the first tick, else the previous tick.
pub open spec fn silence_start(start: u64, ticks: Seq<u64>, i: int) -> int {
    if i == 0 {
        start as int
    } else {
        ticks[i - 1] as int
    }
}

/// Whether the silence period at position `i` (`i == ticks.len()` is the
/// one after the last tick) lasts a full break duration by the session's
/// end at the latest, so that an idle notification arrives within the
/// session.
pub open spec fn silence_fires(start: u64, ticks: Seq<u64>, brk: u64, end: int, i: int) -> bool {
    &&& (i == ticks.len() || ticks[i] > silence_start(start, ticks, i) + brk)
    &&& silence_start(start, ticks, i) + brk <= end
}

/// Whether any silence period within the session reaches a full break.
pub open spec fn any_reset(start: u64, ticks: Seq<u64>, brk: u64, end: int) -> bool {
    exists|i: int| 0 <= i <= ticks.len() && silence_fires(start, ticks, brk, end, i)
}

/// The time of the last input: the last tick, or the activity that
/// started the session.
pub open spec fn last_input(start: u64, ticks: Seq<u64>) -> int {
    if ticks.len() == 0 {
        start as int
    } else {
        ticks[ticks.len() - 1] as int
    }
}

impl InactivityTracker {
    pub fn new(break_duration: u64) -> (r: InactivityTracker)
        ensures
            r.break_duration == break_duration,
    {
        InactivityTracker { break_duration }
    }

    /// The decision for one work session. The session began with an
    /// activity at `start`; `ticks` are the activity times observed after
    /// it, in order, within the session window. Idle notifications queued
    /// before `start` describe the previous waiting period and are the
    /// caller's to drain; they do not enter here.
    ///
    /// A full break duration of silence anywhere in the window — even one
    /// completing exactly at the window's end — means the break was
    /// effectively already taken: `ShouldReset`. Otherwise the session
    /// runs out and a break is owed; the idle time reported with it is
    /// necessarily strictly under a full break duration.
    pub fn reset_or_timeout(&self, start: u64, ticks: &Vec<u64>, work_duration: u64) -> (r:
        TrackResult)
        requires
            start + work_duration + self.break_duration <= u64::MAX,
            forall|i: int|
                0 <= i < ticks@.len() ==> start < #[trigger] ticks@[i] < start + work_duration,
            forall|i: int| 0 <= i < ticks@.len() - 1 ==> #[trigger] ticks@[i] <= ticks@[i + 1],
        ensures
            (r is ShouldReset) == any_reset(
                start,
                ticks@,
                self.break_duration,
                start + work_duration,
            ),
            r matches TrackResult::ShouldBreak { user_idle } ==> {
                &&& user_idle == start + work_duration - last_input(start, ticks@)
                &&& user_idle < self.break_duration
            },
    {
        let end = start + work_duration;
        let brk = self.break_duration;
        let mut prev: u64 = start;
        let mut i: usize = 0;
        while i < ticks.len()
            invariant
                start + work_duration + brk <= u64::MAX,
                brk == self.break_duration,
                end == start + work_duration,
                forall|j: int|
                    0 <= j < ticks@.len() ==> start < #[trigger] ticks@[j] < start + work_duration,
                forall|j: int| 0 <= j < ticks@.len() - 1 ==> #[trigger] ticks@[j] <= ticks@[j + 1],
                0 <= i <= ticks@.len(),
                prev == silence_start(start, ticks@, i as int),
                forall|j: int|
                    0 <= j < i ==> !silence_fires(start, ticks@, brk, end as int, j),
            decreases ticks@.len() - i,
        {
            let t = ticks[i];
            if t > prev + brk {
                proof {
                    assert(silence_fires(start, ticks@, brk, end as int, i as int));
                }
                return TrackResult::ShouldReset;
            }
            prev = t;
            i += 1;
        }
        if prev + brk <= end {
            proof {
                assert(silence_fires(start, ticks@, brk, end as int, ticks@.len() as int));
            }
            return TrackResult::ShouldReset;
        }
        proof {
            assert(forall|j: int|
                0 <= j <= ticks@.len() ==> !silence_fires(start, ticks@, brk, end as int, j));
            assert(prev == last_input(start, ticks@));
        }
        TrackResult::ShouldBreak { user_idle: end - prev }
    }
}

/// Whether a newly connected device falls under one of the filters to
/// block, so that a reader thread should watch it.
pub fn input_matches_filters(dev: &NewInput, to_block: &Vec<InputFilter>) -> (r: bool)
    ensures
        r == exists|i: int|
            0 <= i < to_block@.len() && (#[trigger] to_block@[i]).id == dev.id
                && seq_contains_string(to_block@[i].names@, dev.name@),
{
    let mut i: usize = 0;
    while i < to_block.len()
        invariant
            0 <= i <= to_block@.len(),
            forall|j: int|
                0 <= j < i ==> !((#[trigger] to_block@[j]).id == dev.id && seq_contains_string(
                    to_block@[j].names@,
                    dev.name@,
                )),
        decreases to_block@.len() - i,
    {
        let f = &to_block[i];
        if f.id == dev.id && crate::config::names_contain(&f.names, &dev.name) {
            return true;
        }
        i += 1;
    }
    false
}

/// Whether a substring occurs in a string.
pub open spec fn seq_has_sub(hay: Seq<char>, needle: Seq<char>) -> bool {
    exists|k: int|
        0 <= k && k + needle.len() <= hay.len() && #[trigger] hay.subrange(k, k + needle.len())
            == needle
}

fn match_at(hay: &str, needle: &str, k: usize, hay_len: usize, needle_len: usize) -> (r: bool)
    requires
        hay_len == hay@.len(),
        needle_len == needle@.len(),
        k + needle_len <= hay_len,
    ensures
        r == (hay@.subrange(k as int, k + needle@.len()) == needle@),
{
    let mut j: usize = 0;
    while j < needle_len
        invariant
            hay_len == hay@.len(),
            needle_len == needle@.len(),
            k + needle_len <= hay_len,
            0 <= j <= needle_len,
            forall|m: int| 0 <= m < j ==> hay@[k + m] == needle@[m],
        decreases needle_len - j,
    {
        if hay.get_char(k + j) != needle.get_char(j) {
            proof {
                assert(hay@.subrange(k as int, k + needle@.len())[j as int] != needle@[j as int]);
            }
            return false;
        }
        j += 1;
    }
    proof {
        assert(hay@.subrange(k as int, k + needle@.len()) =~= needle@);
    }
    true
}

/// Declares std's io error type so read and grab failures can be
/// classified; its contents stay opaque here.
#[verifier::external_type_specification]
#[verifier::external_body]
pub struct ExIoError(std::io::Error);

/// Relies on io::Error::raw_os_error: the raw OS error code, when the
/// error came from the OS.
pub assume_specification[ std::io::Error::raw_os_error ](e: &std::io::Error) -> (r: Option<i32>);

/// Relies on the std `Display` impl of `io::Error` for the OS error
/// message; the wording comes from the operating system.
#[verifier::external_body]
fn io_error_text(e: &std::io::Error) -> (r: String) {
    format!("{e}")
}

/// The removal indication itself: OS error code 19 together with the "No
/// such device" wording.
pub fn is_removed_indication(code: Option<i32>, text: &str) -> (r: bool)
    ensures
        r == (code == Some(19i32) && seq_has_sub(text@, "No such device"@)),
{
    let code_matches = match code {
        Some(c) => c == 19i32,
        None => false,
    };
    code_matches && str_contains(text, "No such device")
}

/// Whether a device read or grab error means the node is gone, which ends
/// its reader quietly instead of escalating. The code and message are
/// whatever the OS reported; `is_removed_indication` holds the exact rule.
pub fn device_removed(e: &std::io::Error) -> (r: bool) {
    let code = e.raw_os_error();
    let text = io_error_text(e);
    is_removed_indication(code, text.as_str())
}

/// Whether `needle` occurs in `hay`, compared character by character.
pub fn str_contains(hay: &str, needle: &str) -> (r: bool)
    ensures
        r == seq_has_sub(hay@, needle@),
{
    let hay_len = hay.unicode_len();
    let needle_len = needle.unicode_len();
    if needle_len > hay_len {
        return false;
    }
    if needle_len == 0 {
        proof {
            assert(hay@.subrange(0, 0 + needle@.len() as int) =~= needle@);
            assert(seq_has_sub(hay@, needle@));
        }
        return true;
    }
    let mut k: usize = 0;
    while k <= hay_len - needle_len
        invariant
            hay_len == hay@.len(),
            needle_len == needle@.len(),
            0 < needle_len <= hay_len,
            0 <= k <= hay_len - needle_len + 1,
            forall|kk: int|
                0 <= kk < k ==> #[trigger] hay@.subrange(kk, kk + needle@.len()) != needle@,
        decreases hay_len - needle_len - k + 1,
    {
        if match_at(hay, needle, k, hay_len, needle_len) {
            return true;
        }
        k += 1;
    }
    false
}

} // verus!
