//! Holding off sleep while scheduled work may have to run.
//!
//! A hold is a child process (`caffeinate` on macOS, `systemd-inhibit` on Linux and the other
//! Unixes) or, on Windows, a thread that keeps asserting an execution state. Inside ChromeOS
//! there is none: its host decides when the device sleeps. What has to be done for a hold is
//! decided here, one step at a time: a step says what to do, and what came of it decides the
//! next step.
use vstd::prelude::*;

use crate::platform::{in_chromeos, Platform};
use crate::text::texts;

verus! {

/// How long an inhibitor must live before it counts as held, in milliseconds.
pub const GRACE_MS: u64 = 400;

/// The pause between two looks at a child process, in milliseconds.
pub const POLL_PAUSE_MS: u64 = 10;

/// How often a released inhibitor is looked at before it is killed.
pub const RELEASE_POLLS: u32 = 50;

/// The execution state that keeps the system running until it is cleared.
pub const EXECUTION_STATE_HOLD: u32 = 0x8000_0001;

/// The execution state that clears the hold.
pub const EXECUTION_STATE_CLEAR: u32 = 0x8000_0000;

/// The pause between two assertions of the execution state, in seconds.
pub const EXECUTION_STATE_PAUSE_SECS: u64 = 30;

/// What a hold is made of.
pub enum HoldPlan {
    /// A child process, for as long as it runs.
    Child {
        program: String,
        args: Vec<String>,
        /// Whether the child reads a pipe from the app, so that closing it ends the child.
        piped_stdin: bool,
    },
    /// A thread that asserts the execution state.
    ExecutionState,
}

/// The program and arguments of a child that holds off sleep.
pub open spec fn child_command(platform: Platform) -> (Seq<char>, Seq<Seq<char>>) {
    if platform == Platform::MacOs {
        ("caffeinate"@, seq!["-i"@, "-s"@])
    } else {
        (
            "systemd-inhibit"@,
            seq![
                "--what=idle:sleep"@,
                "--who=OpenWorker"@,
                "--why=Scheduled coworker runs"@,
                "--mode=block"@,
                "cat"@,
            ],
        )
    }
}

/// Whether the inhibitor of a platform has to prove itself before it counts as held: one that
/// finds no session to register with starts, and exits at once.
pub open spec fn on_trial(platform: Platform) -> bool {
    platform == Platform::Linux || platform == Platform::OtherUnix
}

/// What a hold is made of on a platform.
pub fn hold_plan(platform: Platform) -> (r: HoldPlan)
    ensures
        platform == Platform::Windows <==> r is ExecutionState,
        r matches HoldPlan::Child { program, args, piped_stdin } ==> {
            &&& (program@, texts(args@)) == child_command(platform)
            &&& piped_stdin == on_trial(platform)
        },
{
    let mut args: Vec<String> = Vec::new();
    match platform {
        Platform::Windows => HoldPlan::ExecutionState,
        Platform::MacOs => {
            args.push("-i".to_owned());
            args.push("-s".to_owned());
            assert(texts(args@) == seq!["-i"@, "-s"@]);
            HoldPlan::Child { program: "caffeinate".to_owned(), args, piped_stdin: false }
        },
        _ => {
            args.push("--what=idle:sleep".to_owned());
            args.push("--who=OpenWorker".to_owned());
            args.push("--why=Scheduled coworker runs".to_owned());
            args.push("--mode=block".to_owned());
            args.push("cat".to_owned());
            assert(texts(args@) == child_command(platform).1);
            HoldPlan::Child { program: "systemd-inhibit".to_owned(), args, piped_stdin: true }
        },
    }
}

/// What a look at a child process found.
#[derive(Clone, Copy, PartialEq, Eq, Structural, Debug)]
pub enum ChildStatus {
    /// It runs.
    Running,
    /// It has exited.
    Exited,
    /// The look failed.
    Unknown,
}

/// Where the start of a hold stands, and so what is to be done next.
#[derive(Clone, Copy, PartialEq, Eq, Structural, Debug)]
pub enum StartStep {
    /// Start the child, or the thread.
    Spawn,
    /// Read the clock.
    ReadClock,
    /// Look at the child.
    Poll,
    /// Pause.
    Pause,
    /// Nothing: the hold is taken.
    Held,
    /// Kill the child and reap it: the hold is not taken.
    GiveUp,
    /// Nothing: the hold is not taken.
    NotHeld,
}

/// What came of a step of the start.
#[derive(Clone, Copy, PartialEq, Eq, Structural, Debug)]
pub enum StartEvent {
    /// The child or thread was started, or could not be.
    Spawned { ok: bool },
    /// The clock, in milliseconds since the child was started.
    Clock { elapsed_ms: u64 },
    /// What the look at the child found.
    Polled { status: ChildStatus },
    /// The pause is over.
    Paused,
    /// The child is killed and reaped.
    Killed,
}

/// Whether an event can come of a step.
pub open spec fn start_answers(step: StartStep, event: StartEvent) -> bool {
    match step {
        StartStep::Spawn => event is Spawned,
        StartStep::ReadClock => event is Clock,
        StartStep::Poll => event is Polled,
        StartStep::Pause => event is Paused,
        StartStep::GiveUp => event is Killed,
        StartStep::Held | StartStep::NotHeld => false,
    }
}

/// The first step of a start. Inside ChromeOS the host decides when the device sleeps, so no
/// hold is taken there.
pub open spec fn start_first(platform: Platform, crostini: bool) -> StartStep {
    if platform == Platform::Linux && crostini {
        StartStep::NotHeld
    } else {
        StartStep::Spawn
    }
}

/// The first step of taking a hold. `crostini` says whether the app runs inside ChromeOS (see
/// [`crate::platform::inside_chromeos`]).
pub fn start_begin(platform: Platform, crostini: bool) -> (r: StartStep)
    ensures
        r == start_first(platform, crostini),
{
    if platform == Platform::Linux && crostini {
        StartStep::NotHeld
    } else {
        StartStep::Spawn
    }
}

/// The step that follows. A child on trial is looked at until it has outlived the grace
/// period. An event that cannot come of a step leaves it as it is.
pub open spec fn start_next(platform: Platform, step: StartStep, event: StartEvent) -> StartStep {
    match (step, event) {
        (StartStep::Spawn, StartEvent::Spawned { ok }) => if !ok {
            StartStep::NotHeld
        } else if on_trial(platform) {
            StartStep::ReadClock
        } else {
            StartStep::Held
        },
        (StartStep::ReadClock, StartEvent::Clock { elapsed_ms }) => if elapsed_ms < GRACE_MS {
            StartStep::Poll
        } else {
            StartStep::Held
        },
        (StartStep::Poll, StartEvent::Polled { status: ChildStatus::Running }) => StartStep::Pause,
        (StartStep::Poll, StartEvent::Polled { status: ChildStatus::Exited }) => StartStep::NotHeld,
        (StartStep::Poll, StartEvent::Polled { status: ChildStatus::Unknown }) => StartStep::GiveUp,
        (StartStep::Pause, StartEvent::Paused) => StartStep::ReadClock,
        (StartStep::GiveUp, StartEvent::Killed) => StartStep::NotHeld,
        _ => step,
    }
}

/// Decides the next step of taking a hold. It begins with the step of [`start_begin`] and ends
/// in [`StartStep::Held`] or [`StartStep::NotHeld`].
pub fn start_keep_awake(platform: Platform, step: StartStep, event: StartEvent) -> (r: StartStep)
    ensures
        r == start_next(platform, step, event),
{
    match (step, event) {
        (StartStep::Spawn, StartEvent::Spawned { ok }) => if !ok {
            StartStep::NotHeld
        } else {
            match platform {
                Platform::Linux | Platform::OtherUnix => StartStep::ReadClock,
                _ => StartStep::Held,
            }
        },
        (StartStep::ReadClock, StartEvent::Clock { elapsed_ms }) => if elapsed_ms < GRACE_MS {
            StartStep::Poll
        } else {
            StartStep::Held
        },
        (StartStep::Poll, StartEvent::Polled { status }) => match status {
            ChildStatus::Running => StartStep::Pause,
            ChildStatus::Exited => StartStep::NotHeld,
            ChildStatus::Unknown => StartStep::GiveUp,
        },
        (StartStep::Pause, StartEvent::Paused) => StartStep::ReadClock,
        (StartStep::GiveUp, StartEvent::Killed) => StartStep::NotHeld,
        _ => step,
    }
}

/// The step that a run of events leads to.
pub open spec fn start_run(platform: Platform, crostini: bool, events: Seq<StartEvent>) -> StartStep
    decreases events.len(),
{
    if events.len() == 0 {
        start_first(platform, crostini)
    } else {
        start_next(platform, start_run(platform, crostini, events.drop_last()), events.last())
    }
}

/// Whether each event of a run came of the step before it.
pub open spec fn start_run_answers(
    platform: Platform,
    crostini: bool,
    events: Seq<StartEvent>,
) -> bool
    decreases events.len(),
{
    events.len() > 0 ==> {
        &&& start_run_answers(platform, crostini, events.drop_last())
        &&& start_answers(start_run(platform, crostini, events.drop_last()), events.last())
    }
}

/// A hold is never reported that nobody holds: where the run ends in a hold, the app is not
/// inside ChromeOS, the child was started, every look at it found it running, and one that is
/// on trial outlived the grace period.
pub proof fn law_held_is_alive(platform: Platform, crostini: bool, events: Seq<StartEvent>)
    requires
        start_run_answers(platform, crostini, events),
        start_run(platform, crostini, events) == StartStep::Held,
    ensures
        !(platform == Platform::Linux && crostini),
        events.len() > 0,
        events[0] == (StartEvent::Spawned { ok: true }),
        forall|i: int|
            0 <= i < events.len() && (#[trigger] events[i]) is Polled ==> events[i]
                == (StartEvent::Polled { status: ChildStatus::Running }),
        on_trial(platform) ==> events.last() is Clock && events.last()->elapsed_ms >= GRACE_MS,
{
    lemma_alive_so_far(platform, crostini, events);
    lemma_spawned_first(platform, crostini, events);
    law_no_hold_in_chromeos(events);
}

/// As long as the start has not failed, every look has found the child running.
proof fn lemma_alive_so_far(platform: Platform, crostini: bool, events: Seq<StartEvent>)
    requires
        start_run_answers(platform, crostini, events),
        start_run(platform, crostini, events) != StartStep::NotHeld,
        start_run(platform, crostini, events) != StartStep::GiveUp,
    ensures
        forall|i: int|
            0 <= i < events.len() && (#[trigger] events[i]) is Polled ==> events[i]
                == (StartEvent::Polled { status: ChildStatus::Running }),
    decreases events.len(),
{
    if events.len() > 0 {
        let init = events.drop_last();
        lemma_alive_so_far(platform, crostini, init);
        assert forall|i: int| 0 <= i < events.len() && (#[trigger] events[i]) is Polled implies events[i]
            == (StartEvent::Polled { status: ChildStatus::Running }) by {
            if i < init.len() {
                assert(init[i] == events[i]);
            }
        }
    }
}

/// A run that has left the first step began with a start of the child.
proof fn lemma_spawned_first(platform: Platform, crostini: bool, events: Seq<StartEvent>)
    requires
        start_run_answers(platform, crostini, events),
    ensures
        events.len() == 0 ==> start_run(platform, crostini, events) == start_first(
            platform,
            crostini,
        ),
        events.len() > 0 ==> {
            &&& events[0] is Spawned
            &&& start_run(platform, crostini, events) != StartStep::Spawn
            &&& events[0] == (StartEvent::Spawned { ok: false }) ==> start_run(
                platform,
                crostini,
                events,
            ) == StartStep::NotHeld
        },
    decreases events.len(),
{
    if events.len() > 0 {
        let init = events.drop_last();
        lemma_spawned_first(platform, crostini, init);
        if init.len() > 0 {
            assert(init[0] == events[0]);
        }
    }
}

/// Inside ChromeOS no hold is taken: every run ends without one, and it is over before anything
/// is started.
pub proof fn law_no_hold_in_chromeos(events: Seq<StartEvent>)
    ensures
        start_run(Platform::Linux, true, events) == StartStep::NotHeld,
        start_run_answers(Platform::Linux, true, events) <==> events.len() == 0,
    decreases events.len(),
{
    if events.len() > 0 {
        law_no_hold_in_chromeos(events.drop_last());
    }
}

/// An inhibitor that exits, or that cannot be looked at, is not reported as held.
pub proof fn law_dead_is_not_held(
    platform: Platform,
    crostini: bool,
    events: Seq<StartEvent>,
    i: int,
)
    requires
        start_run_answers(platform, crostini, events),
        0 <= i < events.len(),
        events[i] is Polled,
        events[i] != (StartEvent::Polled { status: ChildStatus::Running }),
    ensures
        start_run(platform, crostini, events) != StartStep::Held,
{
    if start_run(platform, crostini, events) == StartStep::Held {
        law_held_is_alive(platform, crostini, events);
    }
}

/// Where the thread of a hold stands, and so what it does next.
#[derive(Clone, Copy, PartialEq, Eq, Structural, Debug)]
pub enum ThreadStep {
    /// Assert the execution state, for the first time.
    Assert,
    /// Look whether the thread was told to stop.
    ReadFlag,
    /// Assert the execution state again.
    Reassert,
    /// Pause.
    Pause,
    /// Clear the execution state.
    Clear,
    /// Nothing: the thread ends.
    Ended,
}

/// What came of a step of the thread.
#[derive(Clone, Copy, PartialEq, Eq, Structural, Debug)]
pub enum ThreadEvent {
    /// Whether the thread was told to stop.
    Flag { stop: bool },
    /// What was to be done is done.
    Done,
}

/// Whether an event can come of a step.
pub open spec fn thread_answers(step: ThreadStep, event: ThreadEvent) -> bool {
    match step {
        ThreadStep::ReadFlag => event is Flag,
        ThreadStep::Ended => false,
        _ => event is Done,
    }
}

/// The step that follows: the state is asserted again and again until the thread is told to
/// stop, and then cleared. An event that cannot come of a step leaves it as it is.
pub open spec fn thread_next(step: ThreadStep, event: ThreadEvent) -> ThreadStep {
    match (step, event) {
        (ThreadStep::Assert, ThreadEvent::Done) => ThreadStep::ReadFlag,
        (ThreadStep::ReadFlag, ThreadEvent::Flag { stop }) => if stop {
            ThreadStep::Clear
        } else {
            ThreadStep::Reassert
        },
        (ThreadStep::Reassert, ThreadEvent::Done) => ThreadStep::Pause,
        (ThreadStep::Pause, ThreadEvent::Done) => ThreadStep::ReadFlag,
        (ThreadStep::Clear, ThreadEvent::Done) => ThreadStep::Ended,
        _ => step,
    }
}

/// Decides the next step of the thread that asserts the execution state. It begins with
/// [`ThreadStep::Assert`] and ends in [`ThreadStep::Ended`].
pub fn hold_thread(step: ThreadStep, event: ThreadEvent) -> (r: ThreadStep)
    ensures
        r == thread_next(step, event),
{
    match (step, event) {
        (ThreadStep::Assert, ThreadEvent::Done) => ThreadStep::ReadFlag,
        (ThreadStep::ReadFlag, ThreadEvent::Flag { stop }) => if stop {
            ThreadStep::Clear
        } else {
            ThreadStep::Reassert
        },
        (ThreadStep::Reassert, ThreadEvent::Done) => ThreadStep::Pause,
        (ThreadStep::Pause, ThreadEvent::Done) => ThreadStep::ReadFlag,
        (ThreadStep::Clear, ThreadEvent::Done) => ThreadStep::Ended,
        _ => step,
    }
}

/// The execution state that a step sets, if it sets one.
pub open spec fn state_set_by(step: ThreadStep) -> Option<u32> {
    match step {
        ThreadStep::Assert | ThreadStep::Reassert => Some(EXECUTION_STATE_HOLD),
        ThreadStep::Clear => Some(EXECUTION_STATE_CLEAR),
        _ => None,
    }
}

/// The execution state that a step of the thread has to set, if it has to set one.
pub fn execution_state(step: ThreadStep) -> (r: Option<u32>)
    ensures
        r == state_set_by(step),
{
    match step {
        ThreadStep::Assert | ThreadStep::Reassert => Some(EXECUTION_STATE_HOLD),
        ThreadStep::Clear => Some(EXECUTION_STATE_CLEAR),
        _ => None,
    }
}

/// The step of the thread that a run of events leads to.
pub open spec fn thread_run(events: Seq<ThreadEvent>) -> ThreadStep
    decreases events.len(),
{
    if events.len() == 0 {
        ThreadStep::Assert
    } else {
        thread_next(thread_run(events.drop_last()), events.last())
    }
}

/// Whether each event of a run of the thread came of the step before it.
pub open spec fn thread_run_answers(events: Seq<ThreadEvent>) -> bool
    decreases events.len(),
{
    events.len() > 0 ==> {
        &&& thread_run_answers(events.drop_last())
        &&& thread_answers(thread_run(events.drop_last()), events.last())
    }
}

/// The execution state after a run of events: the last one that was set.
pub open spec fn state_after(events: Seq<ThreadEvent>) -> Option<u32>
    decreases events.len(),
{
    if events.len() == 0 {
        None
    } else {
        match state_set_by(thread_run(events.drop_last())) {
            Some(state) => Some(state),
            None => state_after(events.drop_last()),
        }
    }
}

/// The system is held awake from the thread's first step until it is told to stop, and not
/// after it has ended: no hold outlives its thread.
pub proof fn law_thread_holds_until_stopped(events: Seq<ThreadEvent>)
    requires
        thread_run_answers(events),
        events.len() > 0,
    ensures
        thread_run(events) == ThreadStep::Ended ==> state_after(events) == Some(
            EXECUTION_STATE_CLEAR,
        ),
        thread_run(events) != ThreadStep::Ended ==> state_after(events) == Some(
            EXECUTION_STATE_HOLD,
        ),
        thread_run(events) == ThreadStep::Clear || thread_run(events) == ThreadStep::Ended
            <==> events.contains(ThreadEvent::Flag { stop: true }),
    decreases events.len(),
{
    let init = events.drop_last();
    let told = ThreadEvent::Flag { stop: true };
    assert(events.last() == events[events.len() - 1]);
    if init.len() > 0 {
        law_thread_holds_until_stopped(init);
    }
    if init.contains(told) {
        let i = choose|i: int| 0 <= i < init.len() && init[i] == told;
        assert(events[i] == told);
    }
    if events.contains(told) && events.last() != told {
        let i = choose|i: int| 0 <= i < events.len() && events[i] == told;
        assert(init[i] == told);
    }
}

/// Where the release of a hold stands, and so what is to be done next.
#[derive(Clone, Copy, PartialEq, Eq, Structural, Debug)]
pub enum ReleaseStep {
    /// Close the pipe that the child reads: its end is what ends the child.
    ClosePipe,
    /// Look at the child, as the first of this many looks.
    Poll { left: u32 },
    /// Pause, with this many looks to come.
    Pause { left: u32 },
    /// Kill the child, and reap it too where so said.
    Kill { reap: bool },
    /// Tell the thread to stop, and join it.
    StopThread,
    /// Nothing: the hold is released.
    Released,
}

/// What came of a step of the release.
#[derive(Clone, Copy, PartialEq, Eq, Structural, Debug)]
pub enum ReleaseEvent {
    /// What the look at the child found.
    Polled { status: ChildStatus },
    /// What was to be done is done.
    Done,
}

/// Whether an event can come of a step.
pub open spec fn release_answers(step: ReleaseStep, event: ReleaseEvent) -> bool {
    match step {
        ReleaseStep::Poll { .. } => event is Polled,
        ReleaseStep::Released => false,
        _ => event is Done,
    }
}

/// The first step of a release.
pub open spec fn release_first(platform: Platform) -> ReleaseStep {
    match platform {
        Platform::MacOs => ReleaseStep::Kill { reap: false },
        Platform::Windows => ReleaseStep::StopThread,
        _ => ReleaseStep::ClosePipe,
    }
}

/// The first step of releasing a hold.
pub fn release_begin(platform: Platform) -> (r: ReleaseStep)
    ensures
        r == release_first(platform),
{
    match platform {
        Platform::MacOs => ReleaseStep::Kill { reap: false },
        Platform::Windows => ReleaseStep::StopThread,
        _ => ReleaseStep::ClosePipe,
    }
}

/// The step that follows. A child whose pipe is closed gets a number of looks to be gone; one
/// that is still there after them, or that cannot be looked at, is killed.
pub open spec fn release_next(step: ReleaseStep, event: ReleaseEvent) -> ReleaseStep {
    match (step, event) {
        (ReleaseStep::ClosePipe, ReleaseEvent::Done) => ReleaseStep::Poll { left: RELEASE_POLLS },
        (
            ReleaseStep::Poll { left },
            ReleaseEvent::Polled { status: ChildStatus::Running },
        ) => ReleaseStep::Pause {
            left: if left > 0 {
                (left - 1) as u32
            } else {
                0
            },
        },
        (
            ReleaseStep::Poll { .. },
            ReleaseEvent::Polled { status: ChildStatus::Exited },
        ) => ReleaseStep::Released,
        (
            ReleaseStep::Poll { .. },
            ReleaseEvent::Polled { status: ChildStatus::Unknown },
        ) => ReleaseStep::Kill { reap: true },
        (ReleaseStep::Pause { left }, ReleaseEvent::Done) => if left == 0 {
            ReleaseStep::Kill { reap: true }
        } else {
            ReleaseStep::Poll { left }
        },
        (ReleaseStep::Kill { .. }, ReleaseEvent::Done) => ReleaseStep::Released,
        (ReleaseStep::StopThread, ReleaseEvent::Done) => ReleaseStep::Released,
        _ => step,
    }
}

/// Decides the next step of releasing a hold.
pub fn release_keep_awake(step: ReleaseStep, event: ReleaseEvent) -> (r: ReleaseStep)
    ensures
        r == release_next(step, event),
{
    match (step, event) {
        (ReleaseStep::ClosePipe, ReleaseEvent::Done) => ReleaseStep::Poll { left: RELEASE_POLLS },
        (ReleaseStep::Poll { left }, ReleaseEvent::Polled { status }) => match status {
            ChildStatus::Running => {
                let fewer: u32 = if left > 0 {
                    left - 1
                } else {
                    0
                };
                ReleaseStep::Pause { left: fewer }
            },
            ChildStatus::Exited => ReleaseStep::Released,
            ChildStatus::Unknown => ReleaseStep::Kill { reap: true },
        },
        (ReleaseStep::Pause { left }, ReleaseEvent::Done) => if left == 0 {
            ReleaseStep::Kill { reap: true }
        } else {
            ReleaseStep::Poll { left }
        },
        (ReleaseStep::Kill { .. }, ReleaseEvent::Done) => ReleaseStep::Released,
        (ReleaseStep::StopThread, ReleaseEvent::Done) => ReleaseStep::Released,
        _ => step,
    }
}

/// The step that a run of events leads to.
pub open spec fn release_run(platform: Platform, events: Seq<ReleaseEvent>) -> ReleaseStep
    decreases events.len(),
{
    if events.len() == 0 {
        release_first(platform)
    } else {
        release_next(release_run(platform, events.drop_last()), events.last())
    }
}

/// Whether each event of a run came of the step before it.
pub open spec fn release_run_answers(platform: Platform, events: Seq<ReleaseEvent>) -> bool
    decreases events.len(),
{
    events.len() > 0 ==> {
        &&& release_run_answers(platform, events.drop_last())
        &&& release_answers(release_run(platform, events.drop_last()), events.last())
    }
}

/// How many pauses a run of events holds.
pub open spec fn pauses(platform: Platform, events: Seq<ReleaseEvent>) -> nat
    decreases events.len(),
{
    if events.len() == 0 {
        0
    } else {
        pauses(platform, events.drop_last()) + if release_run(
            platform,
            events.drop_last(),
        ) is Pause {
            1nat
        } else {
            0nat
        }
    }
}

/// How many steps a release can take at most from here.
pub open spec fn steps_left(step: ReleaseStep) -> int {
    match step {
        ReleaseStep::ClosePipe => 2 * RELEASE_POLLS + 2,
        ReleaseStep::Poll { left } => 2 * left + 1,
        ReleaseStep::Pause { left } => 2 * left + 2,
        ReleaseStep::Kill { .. } | ReleaseStep::StopThread => 1,
        ReleaseStep::Released => 0,
    }
}

/// A wedged inhibitor never holds the app up for long: a release takes a bounded number of
/// steps, and pauses no more often than the looks that it has.
pub proof fn law_release_is_bounded(platform: Platform, events: Seq<ReleaseEvent>)
    requires
        release_run_answers(platform, events),
    ensures
        events.len() + steps_left(release_run(platform, events)) <= 2 * RELEASE_POLLS + 2,
        pauses(platform, events) <= RELEASE_POLLS,
{
    lemma_release_progress(platform, events);
}

/// The looks that a step has left.
spec fn looks_left(step: ReleaseStep) -> int {
    match step {
        ReleaseStep::ClosePipe => RELEASE_POLLS as int,
        ReleaseStep::Poll { left } => left as int,
        ReleaseStep::Pause { left } => left + 1,
        _ => 0,
    }
}

proof fn lemma_release_progress(platform: Platform, events: Seq<ReleaseEvent>)
    requires
        release_run_answers(platform, events),
    ensures
        events.len() + steps_left(release_run(platform, events)) <= 2 * RELEASE_POLLS + 2,
        pauses(platform, events) + looks_left(release_run(platform, events)) <= RELEASE_POLLS,
        release_run(platform, events) matches ReleaseStep::Poll { left } ==> left > 0,
    decreases events.len(),
{
    if events.len() > 0 {
        lemma_release_progress(platform, events.drop_last());
    }
}

/// A release ends the hold: its last step found the child gone, killed it, or stopped the
/// thread.
pub proof fn law_released_is_gone(platform: Platform, events: Seq<ReleaseEvent>)
    requires
        release_run_answers(platform, events),
        release_run(platform, events) == ReleaseStep::Released,
    ensures
        events.len() > 0,
        ({
            let step = release_run(platform, events.drop_last());
            ||| step is Poll && events.last() == (ReleaseEvent::Polled {
                status: ChildStatus::Exited,
            })
            ||| step is Kill
            ||| step is StopThread
        }),
{
}

/// What has to be done to turn keep-awake on or off.
#[derive(Clone, Copy, PartialEq, Eq, Structural, Debug)]
pub enum ToggleAction {
    /// Take a hold.
    Start,
    /// Release the hold.
    Release,
    /// Nothing.
    Leave,
}

/// Whether the system is being kept awake.
pub struct KeepAwake {
    held: bool,
}

impl KeepAwake {
    /// Whether a hold is taken.
    pub closed spec fn is_held(self) -> bool {
        self.held
    }

    /// What has to be done to get to the wanted state.
    pub open spec fn action_for(self, enabled: bool) -> ToggleAction {
        if enabled && !self.is_held() {
            ToggleAction::Start
        } else if !enabled && self.is_held() {
            ToggleAction::Release
        } else {
            ToggleAction::Leave
        }
    }

    /// The state after an action, where `taken` says whether a start ended in a hold.
    pub open spec fn held_after(self, action: ToggleAction, taken: bool) -> bool {
        match action {
            ToggleAction::Start => taken,
            ToggleAction::Release => false,
            ToggleAction::Leave => self.is_held(),
        }
    }

    /// Nothing held.
    pub fn new() -> (r: KeepAwake)
        ensures
            !r.is_held(),
    {
        KeepAwake { held: false }
    }

    /// Whether a hold is taken.
    pub fn get_keep_awake(&self) -> (r: bool)
        ensures
            r == self.is_held(),
    {
        self.held
    }

    /// What has to be done to turn keep-awake on or off: a hold that is there is not taken
    /// twice, and one that is not there is not released.
    pub fn set_keep_awake(&self, enabled: bool) -> (r: ToggleAction)
        ensures
            r == self.action_for(enabled),
    {
        if enabled && !self.held {
            ToggleAction::Start
        } else if !enabled && self.held {
            ToggleAction::Release
        } else {
            ToggleAction::Leave
        }
    }

    /// Notes what came of an action; `taken` says whether a start ended in a hold. The result
    /// is the state to report and to store as the preference: on exactly if a hold is taken.
    pub fn settle(&mut self, action: ToggleAction, taken: bool) -> (r: bool)
        ensures
            r == final(self).is_held(),
            r == old(self).held_after(action, taken),
    {
        self.held = match action {
            ToggleAction::Start => taken,
            ToggleAction::Release => false,
            ToggleAction::Leave => self.held,
        };
        self.held
    }
}

/// Turning keep-awake off leaves no hold. Turning it on ends in a hold exactly if there was
/// one or one could be taken: what is reported is never a hold that was not taken.
pub proof fn law_toggle(state: KeepAwake, enabled: bool, taken: bool)
    ensures
        state.held_after(state.action_for(enabled), taken) == (enabled && (state.is_held()
            || taken)),
{
}

/// What has to be done at launch, by the stored preference.
pub open spec fn restore_action(stored: bool) -> ToggleAction {
    if stored {
        ToggleAction::Start
    } else {
        ToggleAction::Leave
    }
}

/// What has to be done at launch, by the stored preference.
pub fn restore_keep_awake(stored: bool) -> (r: ToggleAction)
    ensures
        r == restore_action(stored),
{
    if stored {
        ToggleAction::Start
    } else {
        ToggleAction::Leave
    }
}

/// Inside ChromeOS the toggle never sticks: where nothing is held, neither turning keep-awake
/// on or off nor restoring it at launch ends in a hold, whatever comes of the start. So off is
/// what is reported, and what is stored.
pub proof fn law_toggle_off_in_chromeos(
    state: KeepAwake,
    enabled: bool,
    stored: bool,
    platform: Platform,
    milestone_exists: bool,
    containers_dir_exists: bool,
    events: Seq<StartEvent>,
)
    requires
        !state.is_held(),
        in_chromeos(platform, milestone_exists, containers_dir_exists),
    ensures
        ({
            let crostini = in_chromeos(platform, milestone_exists, containers_dir_exists);
            let taken = start_run(platform, crostini, events) == StartStep::Held;
            &&& !state.held_after(state.action_for(enabled), taken)
            &&& !state.held_after(restore_action(stored), taken)
        }),
{
    law_no_hold_in_chromeos(events);
}

/// What holds off sleep: `caffeinate` on macOS, and `systemd-inhibit` round a `cat` on the
/// other Unixes, which alone has to prove itself.
pub proof fn law_hold_commands(platform: Platform)
    ensures
        child_command(Platform::MacOs) == ("caffeinate"@, seq!["-i"@, "-s"@]),
        platform == Platform::Linux || platform == Platform::OtherUnix ==> child_command(platform)
            == (
            "systemd-inhibit"@,
            seq![
                "--what=idle:sleep"@,
                "--who=OpenWorker"@,
                "--why=Scheduled coworker runs"@,
                "--mode=block"@,
                "cat"@,
            ],
        ),
        on_trial(platform) <==> platform != Platform::MacOs && platform != Platform::Windows,
{
}

/// The limits: four tenths of a second of grace, half a second of looks at a released
/// inhibitor, ten milliseconds apart, and half a minute between two assertions of the
/// execution state, which holds the system by its lowest bit and lasts by its highest.
pub proof fn law_limits()
    ensures
        GRACE_MS == 400,
        POLL_PAUSE_MS == 10,
        RELEASE_POLLS * POLL_PAUSE_MS == 500,
        EXECUTION_STATE_PAUSE_SECS == 30,
        EXECUTION_STATE_HOLD == 0x8000_0000 + 1,
        EXECUTION_STATE_CLEAR == 0x8000_0000,
{
}

/// Where a start stands is told by what came last: a child that could not be started, has
/// exited or was killed is no hold, one that cannot be looked at is given up, and one that runs
/// is looked at again and again until four tenths of a second have gone. Then it is held,
/// however late the clock is read. Only an inhibitor of Linux and the other Unixes is looked at:
/// elsewhere what is started is held.
pub proof fn law_start_told_by_last_event(
    platform: Platform,
    crostini: bool,
    events: Seq<StartEvent>,
)
    requires
        start_run_answers(platform, crostini, events),
        events.len() > 0,
    ensures
        start_run(platform, crostini, events) == match events.last() {
            StartEvent::Spawned { ok: false } => StartStep::NotHeld,
            StartEvent::Spawned { ok: true } => if platform == Platform::MacOs || platform
                == Platform::Windows {
                StartStep::Held
            } else {
                StartStep::ReadClock
            },
            StartEvent::Clock { elapsed_ms } => if elapsed_ms >= 400 {
                StartStep::Held
            } else {
                StartStep::Poll
            },
            StartEvent::Polled { status: ChildStatus::Running } => StartStep::Pause,
            StartEvent::Polled { status: ChildStatus::Exited } => StartStep::NotHeld,
            StartEvent::Polled { status: ChildStatus::Unknown } => StartStep::GiveUp,
            StartEvent::Paused => StartStep::ReadClock,
            StartEvent::Killed => StartStep::NotHeld,
        },
{
}

/// A live inhibitor is held: outside ChromeOS, where the child was started, every look found it
/// running, and the clock then reads the grace period or more, whatever it reads, the start
/// ends in a hold. On macOS and Windows it does so as soon as the child or thread is started.
pub proof fn law_live_is_held(platform: Platform, crostini: bool, events: Seq<StartEvent>)
    requires
        !(platform == Platform::Linux && crostini),
        start_run_answers(platform, crostini, events),
        events.len() > 0,
        events[0] == (StartEvent::Spawned { ok: true }),
        forall|i: int|
            0 <= i < events.len() && (#[trigger] events[i]) is Polled ==> events[i]
                == (StartEvent::Polled { status: ChildStatus::Running }),
    ensures
        events.last() is Clock && events.last()->elapsed_ms >= 400 ==> start_run(
            platform,
            crostini,
            events,
        ) == StartStep::Held,
        platform == Platform::MacOs || platform == Platform::Windows ==> events.len() == 1
            && start_run(platform, crostini, events) == StartStep::Held,
        start_run(platform, crostini, events) != StartStep::NotHeld,
        start_run(platform, crostini, events) != StartStep::GiveUp,
    decreases events.len(),
{
    let init = events.drop_last();
    if init.len() > 0 {
        assert(init[0] == events[0]);
        assert forall|i: int| 0 <= i < init.len() && (#[trigger] init[i]) is Polled implies init[i]
            == (StartEvent::Polled { status: ChildStatus::Running }) by {
            assert(init[i] == events[i]);
        }
        law_live_is_held(platform, crostini, init);
        lemma_spawned_first(platform, crostini, init);
        assert(events.last() == events[events.len() - 1]);
    } else {
        assert(events.last() == events[0]);
    }
}

/// The events of an inhibitor that is started and found running at each of these times.
pub open spec fn looks_at(times: Seq<u64>) -> Seq<StartEvent>
    decreases times.len(),
{
    if times.len() == 0 {
        seq![StartEvent::Spawned { ok: true }]
    } else {
        looks_at(times.drop_last()) + seq![
            StartEvent::Clock { elapsed_ms: times.last() },
            StartEvent::Polled { status: ChildStatus::Running },
            StartEvent::Paused,
        ]
    }
}

/// However often a live inhibitor is looked at within the grace period, the next look decides
/// by the clock: held once the period is over, looked at again before.
pub proof fn law_patience(
    platform: Platform,
    crostini: bool,
    times: Seq<u64>,
    now: u64,
    status: ChildStatus,
)
    requires
        platform == Platform::Linux && !crostini || platform == Platform::OtherUnix,
        forall|i: int| 0 <= i < times.len() ==> (#[trigger] times[i]) < 400,
    ensures
        start_run(platform, crostini, looks_at(times)) == StartStep::ReadClock,
        now >= 400 ==> start_run(
            platform,
            crostini,
            looks_at(times).push(StartEvent::Clock { elapsed_ms: now }),
        ) == StartStep::Held,
        now < 400 ==> start_run(
            platform,
            crostini,
            looks_at(times).push(StartEvent::Clock { elapsed_ms: now }).push(
                StartEvent::Polled { status },
            ),
        ) == match status {
            ChildStatus::Running => StartStep::Pause,
            ChildStatus::Exited => StartStep::NotHeld,
            ChildStatus::Unknown => StartStep::GiveUp,
        },
    decreases times.len(),
{
    let run = looks_at(times);
    reveal_with_fuel(start_run, 5);
    if times.len() == 0 {
        assert(run.drop_last() == Seq::<StartEvent>::empty());
    } else {
        let init = times.drop_last();
        let t = times.last();
        assert(t == times[times.len() - 1]);
        assert forall|i: int| 0 <= i < init.len() implies (#[trigger] init[i]) < 400 by {
            assert(init[i] == times[i]);
        }
        law_patience(platform, crostini, init, t, ChildStatus::Running);
        let before = looks_at(init);
        let clocked = before.push(StartEvent::Clock { elapsed_ms: t });
        let polled = clocked.push(StartEvent::Polled { status: ChildStatus::Running });
        assert(run == polled.push(StartEvent::Paused));
        assert(run.drop_last() == polled);
    }
    let clocked = run.push(StartEvent::Clock { elapsed_ms: now });
    assert(clocked.drop_last() == run);
    let polled = clocked.push(StartEvent::Polled { status });
    assert(polled.drop_last() == clocked);
}

/// Outside ChromeOS a start begins by starting the child or thread. An event that has nothing
/// to do with the step at hand changes nothing.
pub proof fn law_start_begins(
    platform: Platform,
    crostini: bool,
    step: StartStep,
    event: StartEvent,
)
    ensures
        platform != Platform::Linux || !crostini ==> start_first(platform, crostini)
            == StartStep::Spawn,
        start_first(Platform::Linux, true) == StartStep::NotHeld,
        !(step == StartStep::Spawn && event is Spawned) && !(step == StartStep::ReadClock
            && event is Clock) && !(step == StartStep::Poll && event is Polled) && !(step
            == StartStep::Pause && event is Paused) && !(step == StartStep::GiveUp
            && event is Killed) ==> start_next(platform, step, event) == step,
{
}

/// How a thread stands is told by what came last, and by what came before that: told to stop it
/// clears the state and ends; else it asserts the state again, pauses, and looks again.
pub proof fn law_thread_told_by_last_events(events: Seq<ThreadEvent>)
    requires
        thread_run_answers(events),
    ensures
        events.len() == 0 ==> thread_run(events) == ThreadStep::Assert,
        events.len() == 1 ==> thread_run(events) == ThreadStep::ReadFlag,
        events.len() > 0 ==> (events.last() matches ThreadEvent::Flag { stop } ==> thread_run(
            events,
        ) == if stop {
            ThreadStep::Clear
        } else {
            ThreadStep::Reassert
        }),
        events.len() > 1 && events.last() is Done ==> thread_run(events) == match events[events.len()
            - 2] {
            ThreadEvent::Flag { stop: true } => ThreadStep::Ended,
            ThreadEvent::Flag { stop: false } => ThreadStep::Pause,
            ThreadEvent::Done => ThreadStep::ReadFlag,
        },
    decreases events.len(),
{
    if events.len() > 0 {
        let init = events.drop_last();
        law_thread_told_by_last_events(init);
        if init.len() > 0 {
            assert(init.last() == events[events.len() - 2]);
            if init.len() > 1 {
                assert(init[init.len() - 2] == events[events.len() - 3]);
            }
        }
    }
}

/// What a step of the thread does to the execution state: the first and each further assertion
/// hold the system, clearing lets it go, and nothing else touches it. An event that has nothing
/// to do with the step at hand changes nothing.
pub proof fn law_thread_states(step: ThreadStep, event: ThreadEvent)
    ensures
        state_set_by(ThreadStep::Assert) == Some(0x8000_0001u32),
        state_set_by(ThreadStep::Reassert) == Some(0x8000_0001u32),
        state_set_by(ThreadStep::Clear) == Some(0x8000_0000u32),
        state_set_by(ThreadStep::ReadFlag) is None,
        state_set_by(ThreadStep::Pause) is None,
        state_set_by(ThreadStep::Ended) is None,
        step == ThreadStep::Ended || (step == ThreadStep::ReadFlag) != (event is Flag)
            ==> thread_next(step, event) == step,
{
}

/// The events of a release of an inhibitor that is found running so many times.
pub open spec fn found_running(n: nat) -> Seq<ReleaseEvent>
    decreases n,
{
    if n == 0 {
        seq![ReleaseEvent::Done]
    } else {
        found_running((n - 1) as nat) + seq![
            ReleaseEvent::Polled { status: ChildStatus::Running },
            ReleaseEvent::Done,
        ]
    }
}

/// A released inhibitor gets exactly fifty looks to be gone, after its pipe is closed: one that
/// is gone at any of them is left alone, one that cannot be looked at is killed and reaped, and
/// so is one that is still there after the last, but no earlier.
pub proof fn law_released_inhibitor(platform: Platform, n: nat, status: ChildStatus)
    requires
        platform == Platform::Linux || platform == Platform::OtherUnix,
        n <= 50,
    ensures
        release_first(platform) == ReleaseStep::ClosePipe,
        n == 50 ==> release_run(platform, found_running(n)) == (ReleaseStep::Kill { reap: true }),
        n < 50 ==> release_run(platform, found_running(n)) is Poll,
        n < 50 ==> ({
            let next = release_run(
                platform,
                found_running(n).push(ReleaseEvent::Polled { status }),
            );
            match status {
                ChildStatus::Running => next is Pause,
                ChildStatus::Exited => next == ReleaseStep::Released,
                ChildStatus::Unknown => next == (ReleaseStep::Kill { reap: true }),
            }
        }),
{
    lemma_looks(platform, n);
    let run = found_running(n);
    assert(run.push(ReleaseEvent::Polled { status }).drop_last() == run);
}

proof fn lemma_looks(platform: Platform, n: nat)
    requires
        platform == Platform::Linux || platform == Platform::OtherUnix,
        n <= 50,
    ensures
        n < 50 ==> release_run(platform, found_running(n)) == (ReleaseStep::Poll {
            left: (50 - n) as u32,
        }),
        n == 50 ==> release_run(platform, found_running(n)) == (ReleaseStep::Kill { reap: true }),
    decreases n,
{
    reveal_with_fuel(release_run, 3);
    let run = found_running(n);
    if n == 0 {
        assert(run.drop_last() == Seq::<ReleaseEvent>::empty());
    } else {
        let before = found_running((n - 1) as nat);
        lemma_looks(platform, (n - 1) as nat);
        let polled = before.push(ReleaseEvent::Polled { status: ChildStatus::Running });
        assert(run == polled.push(ReleaseEvent::Done));
        assert(run.drop_last() == polled);
        assert(polled.drop_last() == before);
    }
}

/// Elsewhere a release is one step: on macOS the child is killed, without waiting for it, and
/// on Windows the thread is stopped. A kill ends every release. An event that has nothing to do
/// with the step at hand changes nothing.
pub proof fn law_other_releases(step: ReleaseStep, event: ReleaseEvent, reap: bool)
    ensures
        release_run(Platform::MacOs, seq![]) == (ReleaseStep::Kill { reap: false }),
        release_run(Platform::Windows, seq![]) == ReleaseStep::StopThread,
        release_next(ReleaseStep::Kill { reap }, ReleaseEvent::Done) == ReleaseStep::Released,
        release_next(ReleaseStep::StopThread, ReleaseEvent::Done) == ReleaseStep::Released,
        step == ReleaseStep::Released || (step is Poll) != (event is Polled) ==> release_next(
            step,
            event,
        ) == step,
{
}

/// Something is done exactly where the wanted state is not the one at hand, and what is done
/// fits: a hold is taken to turn it on, and released to turn it off. What then is held is what
/// was taken, nothing after a release, and what was there where nothing was done.
pub proof fn law_toggle_acts_on_change(state: KeepAwake, enabled: bool, taken: bool, stored: bool)
    ensures
        state.action_for(enabled) == ToggleAction::Leave <==> enabled == state.is_held(),
        state.action_for(enabled) == ToggleAction::Start <==> enabled && !state.is_held(),
        state.held_after(ToggleAction::Start, taken) == taken,
        !state.held_after(ToggleAction::Release, taken),
        state.held_after(ToggleAction::Leave, taken) == state.is_held(),
        restore_action(stored) == ToggleAction::Start <==> stored,
        restore_action(stored) == ToggleAction::Leave <==> !stored,
{
}

} // verus!
