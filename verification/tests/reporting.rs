use break_enforcer::cli::{Cli, Commands, ParseError, RunArgs, StatusArgs};
use break_enforcer::integration::{
    fmt_dur, fmt_mm_hh, format_statusbar_msg, notify_if_needed, pad_status_msg, poll_timeout,
    state_update, NotificationType, NotifyConfig, NotifyConfigs, StateUpdate,
};
use break_enforcer::scheduler::BreakState;

const SEC: u64 = 1000;

fn run_args() -> RunArgs {
    RunArgs {
        work_duration: 10 * SEC,
        break_duration: 3 * SEC,
        long_break_duration: None,
        work_between_long_breaks: None,
        lock_warning: Some(60 * SEC),
        lock_warning_type: vec![NotificationType::System],
        tcp_api: false,
        status_file: false,
        notifications: true,
    }
}

#[test]
fn only_status_runs_without_root() {
    assert!(Commands::Run(run_args()).needs_sudo());
    assert!(Commands::Wizard.needs_sudo());
    assert!(Commands::Install(run_args()).needs_sudo());
    assert!(Commands::Remove.needs_sudo());
    let status = Commands::Status(StatusArgs { update_period: None, use_json: false });
    assert!(!status.needs_sudo());

    let cli = Cli { command: Commands::Remove, config_path: None, verbose: false };
    assert!(cli.command.needs_sudo());
    let bad = ParseError::NoColonOrUnit("90x".to_string());
    assert!(matches!(bad, ParseError::NoColonOrUnit(_)));
}

#[test]
fn transitions_announce_updates() {
    assert_eq!(state_update(&BreakState::Waiting), StateUpdate::Reset);
    assert_eq!(state_update(&BreakState::Work { next_break: 5 }), StateUpdate::BreakEnded);
    assert_eq!(state_update(&BreakState::Break { next_work: 5 }), StateUpdate::BreakStarted);
    assert_eq!(
        state_update(&BreakState::WaitingLongReset { long_break_duration: 5 }),
        StateUpdate::LongReset
    );
}

#[test]
fn durations_for_status_bars() {
    assert_eq!(fmt_dur(45), "45s");
    assert_eq!(fmt_dur(60), "60s");
    assert_eq!(fmt_dur(90), "2m");
    assert_eq!(fmt_dur(25 * 60), "25m");
    assert_eq!(fmt_mm_hh(3600 + 5 * 60), "1h:5m");
}

#[test]
fn statusbar_lines() {
    // waiting shows a dash
    assert_eq!(format_statusbar_msg(&BreakState::Waiting, 50 * SEC, 50 * SEC, 3 * SEC), "-");
    // working and active: countdown to the break
    let line = format_statusbar_msg(
        &BreakState::Work { next_break: 55 * SEC },
        10 * SEC,
        10 * SEC,
        3 * SEC,
    );
    assert_eq!(line, "break in 45s");
    // working but idle for over half a minute: countdown to the reset
    let line = format_statusbar_msg(
        &BreakState::Work { next_break: 100 * SEC },
        40 * SEC,
        2 * SEC,
        60 * SEC,
    );
    assert_eq!(line, "idle, reset in 22s");
    // on a break: countdown to the unlock
    let line = format_statusbar_msg(
        &BreakState::Break { next_work: 13 * SEC },
        10 * SEC,
        10 * SEC,
        3 * SEC,
    );
    assert_eq!(line, "unlocks in 3s");
    // waiting out a long reset
    let line = format_statusbar_msg(
        &BreakState::WaitingLongReset { long_break_duration: 30 * SEC },
        10 * SEC,
        5 * SEC,
        3 * SEC,
    );
    assert_eq!(line, "long reset in 25s");
}

#[test]
fn status_file_padding_never_shrinks() {
    assert_eq!(pad_status_msg("break in 5m", 0), "break in 5m");
    assert_eq!(pad_status_msg("-", 11), "-          ");
    assert_eq!(pad_status_msg("break in 5m", 11), "break in 5m");
}

#[test]
fn integrator_poll_cadence() {
    assert_eq!(poll_timeout(&BreakState::Waiting), None);
    assert_eq!(poll_timeout(&BreakState::Work { next_break: 1 }), Some(1000));
    assert_eq!(poll_timeout(&BreakState::Break { next_work: 1 }), Some(1000));
}

#[test]
fn lock_warning_fires_once_within_lead() {
    let mut cfg = NotifyConfig {
        lead_time: 60 * SEC,
        types: vec![NotificationType::System],
        last_issued: 0,
    };
    // break still 90 s away: nothing yet
    let now = 100 * SEC;
    assert!(cfg.emit_if_needed(now, now + 90 * SEC, "locking").is_none());
    // 30 s away: the warning fires, rendered with the lead time
    let msg = cfg.emit_if_needed(now, now + 30 * SEC, "locking").unwrap();
    assert_eq!(msg, "locking in 60s");
    // immediately asking again is debounced
    assert!(cfg.emit_if_needed(now + SEC, now + 29 * SEC, "locking").is_none());
}

#[test]
fn notify_plan_follows_state() {
    let args = run_args();
    let mut notify = NotifyConfigs::from_args(&args, 0);
    assert_eq!(notify.break_start.lead_time, 60 * SEC);
    assert!(notify.state_notifications);

    let now = 200 * SEC;
    let msg = "break in 10s".to_string();
    let plan = notify_if_needed(
        &BreakState::Work { next_break: now + 10 * SEC },
        &mut notify,
        true,
        &msg,
        now,
    );
    assert_eq!(plan.warning.unwrap(), "locking in 60s");
    assert_eq!(plan.state_note.unwrap(), "break in 10s");

    // no state change, nothing due: quiet
    let plan = notify_if_needed(&BreakState::Waiting, &mut notify, false, &msg, now + SEC);
    assert!(plan.warning.is_none());
    assert!(plan.state_note.is_none());
}
