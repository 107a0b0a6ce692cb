//! Finding, logging and starting the sidecar server.
use vstd::prelude::*;

use crate::env_map::EnvMap;
use crate::location::{join, under, Location};
use crate::platform::Platform;
use crate::prefs::{state_dir, state_place, StateEnv};
use crate::text::{decimal, decimal_text, texts};

verus! {

/// The directories around the running app's binary.
pub struct ExeDirs<R> {
    /// The directory that holds the binary.
    pub dir: R,
    /// The directory that holds that one.
    pub above: Option<R>,
}

/// Where the server may be, and where it is in a development tree.
pub struct ServerRoots<R> {
    /// `COWORKER_SERVER_BIN`.
    pub chosen: Option<R>,
    /// The directory of the bundle's resources.
    pub resource_dir: Option<R>,
    /// The directories around the app's binary, where they are known.
    pub exe: Option<ExeDirs<R>>,
    /// The directory of this package's sources.
    pub source_dir: R,
}

/// The file name of the server.
pub open spec fn server_name(platform: Platform) -> Seq<char> {
    if platform == Platform::Windows {
        "openworker-server.exe"@
    } else {
        "openworker-server"@
    }
}

/// The places where an installed server may be, the preferred ones first: the `sidecar`
/// directory among the bundle's resources, beside the binary, and in the `Resources` of an
/// app bundle; then the binary's own directory.
pub open spec fn server_places<R>(roots: ServerRoots<R>, platform: Platform) -> Seq<
    (R, Seq<Seq<char>>),
> {
    let name = server_name(platform);
    let bundled = match roots.resource_dir {
        Some(dir) => seq![(dir, seq!["sidecar"@, name])],
        None => seq![],
    };
    let beside = match roots.exe {
        Some(exe) => {
            let resources = match exe.above {
                Some(above) => seq![(above, seq!["Resources"@, "sidecar"@, name])],
                None => seq![],
            };
            seq![(exe.dir, seq!["sidecar"@, name])] + resources + seq![(exe.dir, seq![name])]
        },
        None => seq![],
    };
    bundled + beside
}

/// The place of the server in a development tree.
pub open spec fn development_place<R>(roots: ServerRoots<R>, platform: Platform) -> (
    R,
    Seq<Seq<char>>,
) {
    (
        roots.source_dir,
        seq![
            if platform == Platform::Windows {
                "../../../.venv/Scripts/openworker-server.exe"@
            } else {
                "../../../.venv/bin/openworker-server"@
            },
        ],
    )
}

/// The position of the first place that is present, or `n` where none of the first `n` is.
pub open spec fn first_present(present: Seq<bool>, n: int) -> int
    decreases n,
{
    if n <= 0 {
        0
    } else {
        let before = first_present(present, n - 1);
        if before < n - 1 || (n - 1 < present.len() && present[n - 1]) {
            before
        } else {
            n
        }
    }
}

/// Where the server is, given which of its places are present: where the user says; else the
/// first place that is present; else in the development tree.
pub open spec fn server_place<R>(roots: ServerRoots<R>, platform: Platform, present: Seq<bool>) -> (
    R,
    Seq<Seq<char>>,
) {
    let places = server_places(roots, platform);
    let k = first_present(present, places.len() as int);
    match roots.chosen {
        Some(path) => (path, seq![]),
        None => if k < places.len() {
            places[k]
        } else {
            development_place(roots, platform)
        },
    }
}

/// The places that locations stand for.
pub open spec fn places_of<R>(locations: Seq<Location<R>>) -> Seq<(R, Seq<Seq<char>>)> {
    locations.map_values(|l: Location<R>| l.place())
}

fn at<R>(root: R, first: Option<&str>, second: Option<&str>, name: &str) -> (r: Location<R>)
    ensures
        r.place() == (
            root,
            (match first {
                Some(part) => seq![part@],
                None => seq![],
            }) + (match second {
                Some(part) => seq![part@],
                None => seq![],
            }) + seq![name@],
        ),
{
    let mut below: Vec<String> = Vec::new();
    if let Some(part) = first {
        below.push(part.to_owned());
    }
    if let Some(part) = second {
        below.push(part.to_owned());
    }
    below.push(name.to_owned());
    assert(texts(below@) == (match first {
        Some(part) => seq![part@],
        None => seq![],
    }) + (match second {
        Some(part) => seq![part@],
        None => seq![],
    }) + seq![name@]);
    Location { root, below }
}

fn name_of_server(platform: Platform) -> (r: &'static str)
    ensures
        r@ == server_name(platform),
{
    if platform == Platform::Windows {
        "openworker-server.exe"
    } else {
        "openworker-server"
    }
}

/// The places to look at for an installed server, in this order.
pub fn server_candidates<R: Copy>(roots: &ServerRoots<R>, platform: Platform) -> (r: Vec<
    Location<R>,
>)
    ensures
        places_of(r@) == server_places(*roots, platform),
{
    let name = name_of_server(platform);
    let mut out: Vec<Location<R>> = Vec::new();
    if let Some(dir) = &roots.resource_dir {
        out.push(at(*dir, Some("sidecar"), None, name));
    }
    if let Some(exe) = &roots.exe {
        out.push(at(exe.dir, Some("sidecar"), None, name));
        if let Some(above) = &exe.above {
            out.push(at(*above, Some("Resources"), Some("sidecar"), name));
        }
        out.push(at(exe.dir, None, None, name));
    }
    assert(places_of(out@) =~~= server_places(*roots, platform));
    out
}

/// The server to start. `present` says, for each candidate in its place, whether it exists.
pub fn server_bin<R: Copy>(roots: &ServerRoots<R>, platform: Platform, present: &Vec<bool>) -> (r:
    Location<R>)
    ensures
        r.place() == server_place(*roots, platform, present@),
{
    if let Some(path) = &roots.chosen {
        let none: Vec<String> = Vec::new();
        assert(texts(none@) == Seq::<Seq<char>>::empty());
        return Location { root: *path, below: none };
    }
    let mut candidates = server_candidates(roots, platform);
    let ghost places = server_places(*roots, platform);
    let mut i: usize = 0;
    while i < candidates.len()
        invariant
            i <= candidates.len(),
            roots.chosen is None,
            places == server_places(*roots, platform),
            places_of(candidates@) == places,
            first_present(present@, i as int) == i,
        decreases candidates.len() - i,
    {
        if i < present.len() && present[i] {
            proof {
                assert(first_present(present@, i + 1) == i);
                lemma_first_present_stays(present@, i + 1, places.len() as int);
                assert(places[i as int] == candidates@[i as int].place());
            }
            return candidates.swap_remove(i);
        }
        i = i + 1;
    }
    let name = if platform == Platform::Windows {
        "../../../.venv/Scripts/openworker-server.exe"
    } else {
        "../../../.venv/bin/openworker-server"
    };
    let place = at(roots.source_dir, None, None, name);
    assert(place.place() == development_place(*roots, platform));
    place
}

/// Once a present place is found, more places do not change it.
proof fn lemma_first_present_stays(present: Seq<bool>, n: int, m: int)
    requires
        0 <= n <= m,
        first_present(present, n) < n,
    ensures
        first_present(present, m) == first_present(present, n),
    decreases m - n,
{
    if n < m {
        lemma_first_present_stays(present, n, m - 1);
    }
}

/// What `first_present` finds.
proof fn lemma_first_present(present: Seq<bool>, n: int)
    requires
        0 <= n,
    ensures
        0 <= first_present(present, n) <= n,
        forall|j: int| 0 <= j < first_present(present, n) && j < present.len() ==> !present[j],
        first_present(present, n) < n ==> first_present(present, n) < present.len()
            && present[first_present(present, n)],
    decreases n,
{
    if n > 0 {
        lemma_first_present(present, n - 1);
    }
}

/// The first place that is present wins, whatever comes after it.
pub proof fn law_first_present_wins<R>(
    roots: ServerRoots<R>,
    platform: Platform,
    present: Seq<bool>,
    k: int,
)
    requires
        roots.chosen is None,
        0 <= k < server_places(roots, platform).len(),
        k < present.len() && present[k],
        forall|j: int| 0 <= j < k ==> !present[j],
    ensures
        server_place(roots, platform, present) == server_places(roots, platform)[k],
{
    lemma_first_present(present, server_places(roots, platform).len() as int);
}

/// A server among the bundle's resources is preferred to every other.
pub proof fn law_resource_dir_preferred<R>(
    roots: ServerRoots<R>,
    platform: Platform,
    present: Seq<bool>,
)
    requires
        roots.chosen is None,
        roots.resource_dir is Some,
        present.len() > 0 && present[0],
    ensures
        server_place(roots, platform, present) == (
            roots.resource_dir->0,
            seq![
                "sidecar"@,
                if platform == Platform::Windows {
                    "openworker-server.exe"@
                } else {
                    "openworker-server"@
                },
            ],
        ),
{
    law_first_present_wins(roots, platform, present, 0);
}

/// Where no place is present, the server is that of the development tree: a resource
/// directory without a server in it does not win by being there.
pub proof fn law_development_fallback<R>(
    roots: ServerRoots<R>,
    platform: Platform,
    present: Seq<bool>,
)
    requires
        roots.chosen is None,
        forall|j: int|
            0 <= j < present.len() && j < server_places(roots, platform).len() ==> !present[j],
    ensures
        server_place(roots, platform, present).0 == roots.source_dir,
        platform == Platform::Windows ==> server_place(roots, platform, present).1 == seq![
            "../../../.venv/Scripts/openworker-server.exe"@,
        ],
        platform != Platform::Windows ==> server_place(roots, platform, present).1 == seq![
            "../../../.venv/bin/openworker-server"@,
        ],
{
    lemma_first_present(present, server_places(roots, platform).len() as int);
}

/// The files of the server's log.
pub struct LogFiles {
    /// The directory that holds them.
    pub dir: Location<String>,
    /// The log of this run.
    pub file: Location<String>,
    /// The log of the run before.
    pub previous: Location<String>,
}

/// Where the server's log is kept.
pub fn server_log_files(env: &StateEnv) -> (r: LogFiles)
    ensures
        r.dir.text_place() == under(state_place(*env), "logs"@),
        r.file.text_place() == under(r.dir.text_place(), "openworker-server.log"@),
        r.previous.text_place() == under(r.dir.text_place(), "openworker-server.log.old"@),
{
    LogFiles {
        dir: join(state_dir(env), "logs"),
        file: join(join(state_dir(env), "logs"), "openworker-server.log"),
        previous: join(join(state_dir(env), "logs"), "openworker-server.log.old"),
    }
}

/// Where the opening of the log stands, and so what is to be done next.
#[derive(Clone, Copy, PartialEq, Eq, Structural, Debug)]
pub enum LogStep {
    /// Create the directory, and those above it, where they are missing.
    CreateDir,
    /// Look whether there is a log of an earlier run.
    LookForLog,
    /// Rename it to the previous log.
    SetAside,
    /// Create an empty log.
    CreateLog,
    /// Nothing: the log is open.
    Open,
    /// Nothing: there is no log, and the server's output is dropped.
    NoLog,
}

/// The step that follows one that succeeded, or found what it looked for, or did not. A log
/// that cannot be set aside is overwritten.
pub open spec fn log_next(step: LogStep, ok: bool) -> LogStep {
    match step {
        LogStep::CreateDir => if ok {
            LogStep::LookForLog
        } else {
            LogStep::NoLog
        },
        LogStep::LookForLog => if ok {
            LogStep::SetAside
        } else {
            LogStep::CreateLog
        },
        LogStep::SetAside => LogStep::CreateLog,
        LogStep::CreateLog => if ok {
            LogStep::Open
        } else {
            LogStep::NoLog
        },
        LogStep::Open => LogStep::Open,
        LogStep::NoLog => LogStep::NoLog,
    }
}

/// Decides the next step of opening the server's log. It begins with [`LogStep::CreateDir`]
/// and ends in [`LogStep::Open`] or [`LogStep::NoLog`].
pub fn server_log_file(step: LogStep, ok: bool) -> (r: LogStep)
    ensures
        r == log_next(step, ok),
{
    match step {
        LogStep::CreateDir => if ok {
            LogStep::LookForLog
        } else {
            LogStep::NoLog
        },
        LogStep::LookForLog => if ok {
            LogStep::SetAside
        } else {
            LogStep::CreateLog
        },
        LogStep::SetAside => LogStep::CreateLog,
        LogStep::CreateLog => if ok {
            LogStep::Open
        } else {
            LogStep::NoLog
        },
        LogStep::Open => LogStep::Open,
        LogStep::NoLog => LogStep::NoLog,
    }
}

/// The step that a run of answers leads to.
pub open spec fn log_run(answers: Seq<bool>) -> LogStep
    decreases answers.len(),
{
    if answers.len() == 0 {
        LogStep::CreateDir
    } else {
        log_next(log_run(answers.drop_last()), answers.last())
    }
}

/// Logging never blocks the start: after four answers at most, whatever they are, the log is
/// open or there is none.
pub proof fn law_log_never_blocks(answers: Seq<bool>)
    requires
        answers.len() >= 4,
    ensures
        log_run(answers) == LogStep::Open || log_run(answers) == LogStep::NoLog,
    decreases answers.len(),
{
    reveal_with_fuel(log_run, 5);
    if answers.len() > 4 {
        law_log_never_blocks(answers.drop_last());
    }
}

/// The log of an earlier run is kept: an empty log is created only after an earlier one was
/// looked for, and right after it was tried to be set aside where there was one.
pub proof fn law_previous_log_set_aside(answers: Seq<bool>)
    requires
        log_run(answers) == LogStep::CreateLog,
    ensures
        answers.len() == 2 && answers[0] && !answers[1] || answers.len() == 3 && answers[0]
            && answers[1],
{
    reveal_with_fuel(log_run, 4);
    let a = answers.drop_last();
    if answers.len() > 0 {
        if log_run(a) == LogStep::SetAside {
            let b = a.drop_last();
            assert(log_run(b) == LogStep::LookForLog);
            lemma_looked_second(b);
            assert(answers[1] == a[1] && answers[0] == b[0]);
        } else {
            lemma_looked_second(a);
            assert(answers[0] == a[0]);
        }
    }
}

proof fn lemma_looked_second(answers: Seq<bool>)
    requires
        log_run(answers) == LogStep::LookForLog,
    ensures
        answers.len() == 1,
        answers[0],
{
    if answers.len() > 0 {
        let a = answers.drop_last();
        assert(log_run(a) == LogStep::CreateDir);
        if a.len() > 0 {
            assert(log_next(log_run(a.drop_last()), a.last()) != LogStep::CreateDir);
        }
    }
}

/// Where an output of the server goes.
#[derive(Clone, Copy, PartialEq, Eq, Structural, Debug)]
pub enum OutputSink {
    /// To the log.
    Log,
    /// Nowhere.
    Null,
}

/// Where the server's standard output and standard error go. `log_open` says whether there
/// is a log, `second_handle` whether it could be opened a second time.
pub fn server_outputs(log_open: bool, second_handle: bool) -> (r: (OutputSink, OutputSink))
    ensures
        r.0 == if log_open {
            OutputSink::Log
        } else {
            OutputSink::Null
        },
        r.1 == if log_open && second_handle {
            OutputSink::Log
        } else {
            OutputSink::Null
        },
{
    let out = if log_open {
        OutputSink::Log
    } else {
        OutputSink::Null
    };
    let err = if log_open && second_handle {
        OutputSink::Log
    } else {
        OutputSink::Null
    };
    (out, err)
}

/// How to start the server.
pub struct ServerCommand {
    pub args: Vec<String>,
    /// The variables to set, over those that the server inherits.
    pub vars: EnvMap,
}

/// The arguments of the server: where it listens.
pub open spec fn server_args(port: u16) -> Seq<Seq<char>> {
    seq!["--host"@, "127.0.0.1"@, "--port"@, decimal(port as nat)]
}

/// The variables of the server: those of its environment, and over them those that tie it to
/// the app.
pub open spec fn server_vars(
    env: Map<Seq<char>, Seq<char>>,
    app_pid: u32,
    api_token: Seq<char>,
) -> Map<Seq<char>, Seq<char>> {
    env.insert("COWORKER_EXIT_WITH_PARENT"@, "1"@).insert(
        "COWORKER_PARENT_PID"@,
        decimal(app_pid as nat),
    ).insert("COWORKER_API_TOKEN"@, api_token)
}

/// How to start the server on a port, with the environment made for it. It gets the app's
/// process id, so that it exits when the app dies, and the token that requests must carry.
pub fn server_command(port: u16, env: EnvMap, app_pid: u32, api_token: &str) -> (r: ServerCommand)
    ensures
        texts(r.args@) == server_args(port),
        r.vars@ == server_vars(env@, app_pid, api_token@),
{
    let mut args: Vec<String> = Vec::new();
    args.push("--host".to_owned());
    args.push("127.0.0.1".to_owned());
    args.push("--port".to_owned());
    args.push(decimal_text(port as u64));
    assert(texts(args@) == server_args(port));
    let mut vars = env;
    vars.insert("COWORKER_EXIT_WITH_PARENT".to_owned(), "1".to_owned());
    vars.insert("COWORKER_PARENT_PID".to_owned(), decimal_text(app_pid as u64));
    vars.insert("COWORKER_API_TOKEN".to_owned(), api_token.to_owned());
    ServerCommand { args, vars }
}

/// The variables that tie the server to the app win over anything that a profile exports, and
/// every other variable is left as it is.
pub proof fn law_app_vars_win(
    env: Map<Seq<char>, Seq<char>>,
    app_pid: u32,
    api_token: Seq<char>,
    name: Seq<char>,
)
    ensures
        ({
            let vars = server_vars(env, app_pid, api_token);
            &&& vars.contains_key("COWORKER_EXIT_WITH_PARENT"@)
            &&& vars["COWORKER_EXIT_WITH_PARENT"@] == "1"@
            &&& vars.contains_key("COWORKER_PARENT_PID"@)
            &&& vars["COWORKER_PARENT_PID"@] == decimal(app_pid as nat)
            &&& vars.contains_key("COWORKER_API_TOKEN"@)
            &&& vars["COWORKER_API_TOKEN"@] == api_token
            &&& name != "COWORKER_EXIT_WITH_PARENT"@ && name != "COWORKER_PARENT_PID"@ && name
                != "COWORKER_API_TOKEN"@ ==> vars.contains_key(name) == env.contains_key(name)
                && vars[name] == env[name]
        }),
{
    reveal_strlit("COWORKER_EXIT_WITH_PARENT");
    reveal_strlit("COWORKER_PARENT_PID");
    reveal_strlit("COWORKER_API_TOKEN");
    assert("COWORKER_EXIT_WITH_PARENT"@.len() == 25);
    assert("COWORKER_PARENT_PID"@.len() == 19);
    assert("COWORKER_API_TOKEN"@.len() == 18);
}

/// What the user chose goes before everything else: whatever the platform, the other roots and
/// the places that are present, the chosen path itself is the server.
pub proof fn law_chosen_wins<R>(
    roots: ServerRoots<R>,
    path: R,
    platform: Platform,
    present: Seq<bool>,
)
    requires
        roots.chosen == Some(path),
    ensures
        server_place(roots, platform, present) == (path, Seq::<Seq<char>>::empty()),
{
}

/// Where a server is looked for, and in which order: among the resources, where the bundle has
/// any; and where the binary's directory is known, in `sidecar` beside the binary, in the
/// `Resources` above it where there is a directory above, and beside the binary itself, last.
pub proof fn law_server_places<R>(roots: ServerRoots<R>, platform: Platform)
    ensures
        ({
            let places = server_places(roots, platform);
            let name = if platform == Platform::Windows {
                "openworker-server.exe"@
            } else {
                "openworker-server"@
            };
            let first = if roots.resource_dir is Some {
                1int
            } else {
                0int
            };
            &&& roots.resource_dir matches Some(dir) ==> places[0] == (dir, seq!["sidecar"@, name])
            &&& roots.exe is None ==> places.len() == first
            &&& roots.exe matches Some(exe) ==> {
                &&& places[first] == (exe.dir, seq!["sidecar"@, name])
                &&& places.last() == (exe.dir, seq![name])
                &&& exe.above is None ==> places.len() == first + 2
                &&& exe.above matches Some(above) ==> places.len() == first + 3 && places[first
                    + 1] == (above, seq!["Resources"@, "sidecar"@, name])
            }
        }),
{
}

/// A place that is not present does not matter: without it, the rest decides.
pub proof fn law_missing_resources_fall_through<R>(
    roots: ServerRoots<R>,
    dir: R,
    platform: Platform,
    present: Seq<bool>,
)
    requires
        roots.resource_dir is None,
    ensures
        server_place(
            ServerRoots { resource_dir: Some(dir), ..roots },
            platform,
            seq![false] + present,
        ) == server_place(roots, platform, present),
{
    let with = ServerRoots { resource_dir: Some(dir), ..roots };
    let places = server_places(roots, platform);
    let more = server_places(with, platform);
    assert(more.skip(1) == places);
    assert(more.len() == places.len() + 1);
    lemma_first_present_shift(present, places.len() as int);
    lemma_first_present(present, places.len() as int);
    let k = first_present(present, places.len() as int);
    if k < places.len() {
        assert(more[k + 1] == more.skip(1)[k]);
    }
}

proof fn lemma_first_present_shift(present: Seq<bool>, n: int)
    requires
        0 <= n,
    ensures
        first_present(seq![false] + present, n + 1) == first_present(present, n) + 1,
    decreases n,
{
    let longer = seq![false] + present;
    assert(!longer[0]);
    if n == 0 {
        assert(first_present(longer, 0) == 0);
    } else {
        lemma_first_present_shift(present, n - 1);
        if n - 1 < present.len() {
            assert(longer[n] == present[n - 1]);
        }
    }
}

/// The server listens on this machine only, on the port of the launch.
pub proof fn law_server_args(port: u16)
    ensures
        server_args(port) == seq!["--host"@, "127.0.0.1"@, "--port"@, decimal(port as nat)],
{
}

/// How the log is opened: there is one exactly if the directory and the file can be made. A log
/// of an earlier run is renamed first, and that this fails does not matter.
pub proof fn law_log_opened(renamed: bool, created: bool)
    ensures
        log_run(seq![]) == LogStep::CreateDir,
        log_run(seq![false]) == LogStep::NoLog,
        log_run(seq![true]) == LogStep::LookForLog,
        log_run(seq![true, false]) == LogStep::CreateLog,
        log_run(seq![true, true]) == LogStep::SetAside,
        log_run(seq![true, true, renamed]) == LogStep::CreateLog,
        log_run(seq![true, false, created]) == if created {
            LogStep::Open
        } else {
            LogStep::NoLog
        },
        log_run(seq![true, true, renamed, created]) == if created {
            LogStep::Open
        } else {
            LogStep::NoLog
        },
{
    reveal_with_fuel(log_run, 5);
    assert(seq![false].drop_last() == Seq::<bool>::empty());
    assert(seq![true].drop_last() == Seq::<bool>::empty());
    assert(seq![true, false].drop_last() == seq![true]);
    assert(seq![true, true].drop_last() == seq![true]);
    assert(seq![true, true, renamed].drop_last() == seq![true, true]);
    assert(seq![true, false, created].drop_last() == seq![true, false]);
    assert(seq![true, true, renamed, created].drop_last() == seq![true, true, renamed]);
}

/// Once the log is open, or there is none, nothing changes that.
pub proof fn law_log_settles(answers: Seq<bool>, ok: bool)
    requires
        log_run(answers) == LogStep::Open || log_run(answers) == LogStep::NoLog,
    ensures
        log_run(answers.push(ok)) == log_run(answers),
{
    assert(answers.push(ok).drop_last() == answers);
}

} // verus!
