use openworker_shell::keep_awake::{
    execution_state, hold_plan, hold_thread, release_begin, release_keep_awake,
    restore_keep_awake, start_begin, start_keep_awake, ChildStatus, HoldPlan, KeepAwake, ReleaseEvent,
    ReleaseStep, StartEvent, StartStep, ThreadEvent, ThreadStep, ToggleAction, EXECUTION_STATE_CLEAR, EXECUTION_STATE_HOLD, GRACE_MS, POLL_PAUSE_MS,
    RELEASE_POLLS,
};
use openworker_shell::platform::{inside_chromeos, Platform};
use openworker_shell::prefs::{read_keep_awake_pref, write_keep_awake_pref, StateEnv};

/// Takes a hold with an inhibitor that dies after so many milliseconds, on a clock that only
/// the pauses move.
fn take_hold(platform: Platform, spawns: bool, dies_at_ms: Option<u64>, look_fails: bool) -> (StartStep, u64) {
    run_start(platform, false, spawns, dies_at_ms, look_fails)
}

fn run_start(
    platform: Platform,
    crostini: bool,
    spawns: bool,
    dies_at_ms: Option<u64>,
    look_fails: bool,
) -> (StartStep, u64) {
    let mut now = 0;
    let mut step = start_begin(platform, crostini);
    loop {
        let event = match step {
            StartStep::Spawn => StartEvent::Spawned { ok: spawns },
            StartStep::ReadClock => StartEvent::Clock { elapsed_ms: now },
            StartStep::Poll => StartEvent::Polled {
                status: if look_fails {
                    ChildStatus::Unknown
                } else if dies_at_ms.is_some_and(|at| at <= now) {
                    ChildStatus::Exited
                } else {
                    ChildStatus::Running
                },
            },
            StartStep::Pause => {
                now += POLL_PAUSE_MS;
                StartEvent::Paused
            }
            StartStep::GiveUp => StartEvent::Killed,
            StartStep::Held | StartStep::NotHeld => return (step, now),
        };
        step = start_keep_awake(platform, step, event);
    }
}

/// A hold must stand for a live inhibitor: that the program could be run says nothing, one
/// that finds no session to register with is gone in milliseconds.
#[test]
fn keep_awake_never_reports_a_dead_inhibitor() {
    for platform in [Platform::Linux, Platform::OtherUnix] {
        for dies_at in [0, 1, 10, 200, 390] {
            let (step, now) = take_hold(platform, true, Some(dies_at), false);
            assert_eq!(step, StartStep::NotHeld);
            assert!(now < GRACE_MS);
        }
        assert_eq!(take_hold(platform, true, None, false), (StartStep::Held, GRACE_MS));
    }
}

#[test]
fn a_hold_that_cannot_be_taken_is_not_reported() {
    for platform in [Platform::MacOs, Platform::Linux, Platform::OtherUnix, Platform::Windows] {
        assert_eq!(take_hold(platform, false, None, false), (StartStep::NotHeld, 0));
    }
    assert_eq!(take_hold(Platform::Linux, true, None, true), (StartStep::NotHeld, 0));
    let polled = StartEvent::Polled { status: ChildStatus::Unknown };
    assert_eq!(start_keep_awake(Platform::Linux, StartStep::Poll, polled), StartStep::GiveUp);
}

#[test]
fn only_the_inhibitor_is_on_trial() {
    assert_eq!(take_hold(Platform::MacOs, true, Some(0), false), (StartStep::Held, 0));
    assert_eq!(take_hold(Platform::Windows, true, None, false), (StartStep::Held, 0));
}

#[test]
fn events_that_do_not_fit_change_nothing() {
    for step in [StartStep::Held, StartStep::NotHeld, StartStep::Poll] {
        assert_eq!(start_keep_awake(Platform::Linux, step, StartEvent::Paused), step);
    }
    let done = ReleaseEvent::Done;
    assert_eq!(release_keep_awake(ReleaseStep::Released, done), ReleaseStep::Released);
    assert_eq!(
        release_keep_awake(ReleaseStep::Poll { left: 3 }, done),
        ReleaseStep::Poll { left: 3 }
    );
}

#[test]
fn what_a_hold_is_made_of() {
    let child = |platform| match hold_plan(platform) {
        HoldPlan::Child { program, args, piped_stdin } => Some((program, args, piped_stdin)),
        HoldPlan::ExecutionState => None,
    };
    let strings = |list: &[&str]| list.iter().map(|s| s.to_string()).collect::<Vec<String>>();
    assert_eq!(
        child(Platform::MacOs),
        Some(("caffeinate".to_string(), strings(&["-i", "-s"]), false))
    );
    let inhibit = strings(&[
        "--what=idle:sleep",
        "--who=OpenWorker",
        "--why=Scheduled coworker runs",
        "--mode=block",
        "cat",
    ]);
    for platform in [Platform::Linux, Platform::OtherUnix] {
        assert_eq!(
            child(platform),
            Some(("systemd-inhibit".to_string(), inhibit.clone(), true))
        );
    }
    assert_eq!(child(Platform::Windows), None);
    assert_eq!(EXECUTION_STATE_HOLD, 0x8000_0000 | 0x0000_0001);
    assert_eq!(EXECUTION_STATE_CLEAR, 0x8000_0000);
}

/// Releases a hold whose child is gone after so many looks; how many looks and pauses it
/// took, and whether the child was killed.
fn release(platform: Platform, gone_after: Option<u32>, look_fails: bool) -> (u32, u32, bool) {
    let (mut looks, mut pauses, mut killed) = (0, 0, false);
    let mut step = release_begin(platform);
    loop {
        let event = match step {
            ReleaseStep::Poll { .. } => {
                looks += 1;
                ReleaseEvent::Polled {
                    status: if look_fails {
                        ChildStatus::Unknown
                    } else if gone_after.is_some_and(|n| looks > n) {
                        ChildStatus::Exited
                    } else {
                        ChildStatus::Running
                    },
                }
            }
            ReleaseStep::Pause { .. } => {
                pauses += 1;
                ReleaseEvent::Done
            }
            ReleaseStep::Kill { .. } => {
                killed = true;
                ReleaseEvent::Done
            }
            ReleaseStep::ClosePipe | ReleaseStep::StopThread => ReleaseEvent::Done,
            ReleaseStep::Released => return (looks, pauses, killed),
        };
        step = release_keep_awake(step, event);
    }
}

#[test]
fn a_wedged_inhibitor_is_killed_in_the_end() {
    assert_eq!(release(Platform::Linux, Some(0), false), (1, 0, false));
    assert_eq!(release(Platform::Linux, Some(3), false), (4, 3, false));
    assert_eq!(release(Platform::Linux, Some(49), false), (50, 49, false));
    assert_eq!(release(Platform::Linux, None, false), (RELEASE_POLLS, RELEASE_POLLS, true));
    assert_eq!(RELEASE_POLLS as u64 * POLL_PAUSE_MS, 500);
    assert_eq!(release(Platform::OtherUnix, None, true), (1, 0, true));
}

#[test]
fn other_holds_are_released_at_once() {
    assert_eq!(release_begin(Platform::MacOs), ReleaseStep::Kill { reap: false });
    assert_eq!(release(Platform::MacOs, None, false), (0, 0, true));
    assert_eq!(release_begin(Platform::Windows), ReleaseStep::StopThread);
    assert_eq!(release(Platform::Windows, None, false), (0, 0, false));
    let unknown = ReleaseEvent::Polled { status: ChildStatus::Unknown };
    assert_eq!(
        release_keep_awake(ReleaseStep::Poll { left: 9 }, unknown),
        ReleaseStep::Kill { reap: true }
    );
}

#[test]
fn the_toggle_reports_what_is_held() {
    let mut keep = KeepAwake::new();
    assert!(!keep.get_keep_awake());
    assert_eq!(keep.set_keep_awake(false), ToggleAction::Leave);
    assert!(!keep.settle(ToggleAction::Leave, true));
    assert_eq!(keep.set_keep_awake(true), ToggleAction::Start);
    assert!(!keep.settle(ToggleAction::Start, false));
    assert!(!keep.get_keep_awake());
    assert_eq!(keep.set_keep_awake(true), ToggleAction::Start);
    assert!(keep.settle(ToggleAction::Start, true));
    assert!(keep.get_keep_awake());
    assert_eq!(keep.set_keep_awake(true), ToggleAction::Leave);
    assert!(keep.settle(ToggleAction::Leave, false));
    assert_eq!(keep.set_keep_awake(false), ToggleAction::Release);
    assert!(!keep.settle(ToggleAction::Release, true));
    assert!(!keep.get_keep_awake());
}

#[test]
fn the_last_session_is_restored() {
    assert_eq!(restore_keep_awake(true), ToggleAction::Start);
    assert_eq!(restore_keep_awake(false), ToggleAction::Leave);
}

/// Runs the thread of a hold that is told to stop at so many looks; the states that it set.
fn thread_states(told_at: u32) -> (Vec<u32>, u32) {
    let (mut states, mut pauses, mut looks) = (Vec::new(), 0, 0);
    let mut step = ThreadStep::Assert;
    while step != ThreadStep::Ended {
        if let Some(state) = execution_state(step) {
            states.push(state);
        }
        let event = match step {
            ThreadStep::ReadFlag => {
                looks += 1;
                ThreadEvent::Flag { stop: looks > told_at }
            }
            ThreadStep::Pause => {
                pauses += 1;
                ThreadEvent::Done
            }
            _ => ThreadEvent::Done,
        };
        step = hold_thread(step, event);
    }
    (states, pauses)
}

#[test]
fn the_thread_holds_until_it_is_told_to_stop() {
    let (hold, clear) = (EXECUTION_STATE_HOLD, EXECUTION_STATE_CLEAR);
    assert_eq!(thread_states(0), (vec![hold, clear], 0));
    assert_eq!(thread_states(2), (vec![hold, hold, hold, clear], 2));
    assert_eq!(execution_state(ThreadStep::Pause), None);
    assert_eq!(execution_state(ThreadStep::Ended), None);
    assert_eq!(hold_thread(ThreadStep::Ended, ThreadEvent::Done), ThreadStep::Ended);
    let stop = ThreadEvent::Flag { stop: true };
    assert_eq!(hold_thread(ThreadStep::Pause, stop), ThreadStep::Pause);
}

/// A hold that was taken is stored as on, and restored at the next launch.
#[test]
fn a_toggle_survives_a_restart() {
    let env = StateEnv {
        platform: Platform::Linux,
        state_dir: None,
        appdata: None,
        home: Some("/home/ada".to_string()),
    };
    for taken in [true, false] {
        let mut keep = KeepAwake::new();
        let action = keep.set_keep_awake(true);
        let on = keep.settle(action, taken);
        let stored = read_keep_awake_pref(Some(&write_keep_awake_pref(&env, on).text));
        assert_eq!(stored, taken);
        let expected = if taken { ToggleAction::Start } else { ToggleAction::Leave };
        assert_eq!(restore_keep_awake(stored), expected);
    }
}

#[test]
fn either_marker_shows_chromeos() {
    for (milestone, containers) in [(true, false), (false, true), (true, true)] {
        assert!(inside_chromeos(Platform::Linux, milestone, containers));
        for platform in [Platform::MacOs, Platform::Windows, Platform::OtherUnix] {
            assert!(!inside_chromeos(platform, milestone, containers));
        }
    }
    assert!(!inside_chromeos(Platform::Linux, false, false));
}

/// Inside ChromeOS the host decides when the device sleeps: the toggle reports and stores off,
/// though an inhibitor would live, and so does a launch that finds it stored as on.
#[test]
fn the_toggle_does_not_stick_inside_chromeos() {
    let env = StateEnv {
        platform: Platform::Linux,
        state_dir: None,
        appdata: None,
        home: Some("/home/ada".to_string()),
    };
    for (milestone, containers) in [(true, false), (false, true), (true, true)] {
        let crostini = inside_chromeos(Platform::Linux, milestone, containers);
        assert_eq!(start_begin(Platform::Linux, crostini), StartStep::NotHeld);
        let (end, waited) = run_start(Platform::Linux, crostini, true, None, false);
        assert_eq!((end, waited), (StartStep::NotHeld, 0));
        let taken = end == StartStep::Held;

        let mut keep = KeepAwake::new();
        let action = keep.set_keep_awake(true);
        assert_eq!(action, ToggleAction::Start);
        let on = keep.settle(action, taken);
        assert!(!on && !keep.get_keep_awake());
        assert_eq!(write_keep_awake_pref(&env, on).text, "{\"keep_awake\":false}");

        let mut keep = KeepAwake::new();
        assert!(!keep.settle(restore_keep_awake(true), taken));
        assert!(!keep.get_keep_awake());
    }
    let crostini = inside_chromeos(Platform::Linux, false, false);
    assert_eq!(run_start(Platform::Linux, crostini, true, None, false).0, StartStep::Held);
}

#[test]
fn only_linux_begins_by_chromeos() {
    for platform in [Platform::MacOs, Platform::Windows, Platform::OtherUnix] {
        assert_eq!(start_begin(platform, true), StartStep::Spawn);
        assert_eq!(start_begin(platform, false), StartStep::Spawn);
    }
    assert_eq!(start_begin(Platform::Linux, false), StartStep::Spawn);
}
