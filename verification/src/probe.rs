//! Asking the login shell for its environment.
//!
//! The shell prints its variables between two markers, so that what a profile prints of its
//! own accord is not taken for a variable.
use vstd::prelude::*;

use crate::env_map::EnvMap;
use crate::keep_awake::ChildStatus;
use crate::platform::Platform;
use crate::text::{
    all_white, chars_of, first_index, is_white_space, law_trimmed_end, lemma_first_index,
    lemma_is_first_index, lemma_printed_lines, lines, lines_of, one_line, piece, printed,
    same_text, texts, trim_end, trimmed_end, white_space,
};

verus! {

/// The line that the probe prints before the variables.
pub const START_MARKER: &'static str = "__OCW_ENV_START__";

/// The line that the probe prints after the variables.
pub const END_MARKER: &'static str = "__OCW_ENV_END__";

/// How long the login shell may take, in milliseconds.
pub const PROBE_TIMEOUT_MS: u64 = 5000;

/// The pause between two looks at the login shell, in milliseconds.
pub const PROBE_PAUSE_MS: u64 = 10;

/// The command that asks the login shell for its environment.
pub struct ShellProbe {
    /// The shell to run.
    pub shell: String,
    /// Its arguments: an interactive login shell that runs one script.
    pub args: Vec<String>,
}

/// What became of the probe.
pub enum ProbeOutcome {
    /// The shell could not be run, or was not to be.
    NotStarted,
    /// The shell had not printed all when its time was up.
    Hung,
    /// The shell printed this, to the end.
    Finished(String),
}

impl ProbeOutcome {
    /// What the shell printed, if it printed all in time.
    pub open spec fn output(self) -> Option<Seq<char>> {
        match self {
            ProbeOutcome::Finished(text) => Some(text@),
            _ => None,
        }
    }
}

/// What the app knows of its own launch.
pub struct LaunchContext {
    pub platform: Platform,
    /// Whether a shell launched the app (`SHLVL` is set).
    pub from_shell: bool,
    /// The app's own `PATH`.
    pub path: Option<String>,
    /// The app's own `HOME`.
    pub home: Option<String>,
}

impl LaunchContext {
    /// Whether the app inherited the user's real environment.
    pub open spec fn has_real_env(self) -> bool {
        self.platform == Platform::Windows || self.from_shell
    }
}

/// The login shell of a platform where the user has set none.
pub open spec fn default_shell(platform: Platform) -> Seq<char> {
    if platform == Platform::MacOs {
        "/bin/zsh"@
    } else {
        "/bin/bash"@
    }
}

/// The script that prints the environment between the two markers.
pub open spec fn probe_script() -> Seq<char> {
    "echo "@ + START_MARKER@ + "; env; echo "@ + END_MARKER@
}

/// The probe to run before the server starts: none where the environment is real already.
pub fn shell_probe(ctx: &LaunchContext, shell: Option<String>) -> (r: Option<ShellProbe>)
    ensures
        r is None <==> ctx.has_real_env(),
        r is None <==> ctx.platform == Platform::Windows || ctx.from_shell,
        r is Some ==> {
            &&& r->0.shell@ == match shell {
                Some(s) => s@,
                None => default_shell(ctx.platform),
            }
            &&& texts(r->0.args@) == seq!["-ilc"@, probe_script()]
        },
{
    if ctx.platform == Platform::Windows || ctx.from_shell {
        return None;
    }
    let shell = match shell {
        Some(s) => s,
        None => if ctx.platform == Platform::MacOs {
            "/bin/zsh".to_owned()
        } else {
            "/bin/bash".to_owned()
        },
    };
    let mut script = "echo ".to_owned();
    script.append(START_MARKER);
    script.append("; env; echo ");
    script.append(END_MARKER);
    let mut args: Vec<String> = Vec::new();
    args.push("-ilc".to_owned());
    args.push(script);
    assert(texts(args@) == seq!["-ilc"@, probe_script()]);
    Some(ShellProbe { shell, args })
}

/// Where a probe whose shell was started stands, and so what is to be done next.
#[derive(Clone, Copy, PartialEq, Eq, Structural, Debug)]
pub enum ProbeStep {
    /// Read what the shell prints to its end, for as long as the shell may take.
    Listen,
    /// Read the clock.
    ReadClock,
    /// Look at the shell.
    Poll,
    /// Pause.
    Pause,
    /// Kill the shell and reap it.
    Kill,
    /// Nothing: the probe is over.
    Over,
}

/// What came of a step of the probe.
#[derive(Clone, Copy, PartialEq, Eq, Structural, Debug)]
pub enum ProbeEvent {
    /// The shell's output came to its end in time, or did not.
    Heard { ok: bool },
    /// The clock, in milliseconds since the shell was started.
    Clock { elapsed_ms: u64 },
    /// What the look at the shell found.
    Polled { status: ChildStatus },
    /// What was to be done is done.
    Done,
}

/// Whether an event can come of a step.
pub open spec fn probe_answers(step: ProbeStep, event: ProbeEvent) -> bool {
    match step {
        ProbeStep::Listen => event is Heard,
        ProbeStep::ReadClock => event is Clock,
        ProbeStep::Poll => event is Polled,
        ProbeStep::Pause | ProbeStep::Kill => event is Done,
        ProbeStep::Over => false,
    }
}

/// The step that follows. A shell that has printed all is waited for as long as its time lasts;
/// one that is still there then, or that cannot be looked at, is killed, as is one that has not
/// printed all in time. An event that cannot come of a step leaves it as it is.
pub open spec fn probe_next(step: ProbeStep, event: ProbeEvent) -> ProbeStep {
    match (step, event) {
        (ProbeStep::Listen, ProbeEvent::Heard { ok }) => if ok {
            ProbeStep::ReadClock
        } else {
            ProbeStep::Kill
        },
        (ProbeStep::ReadClock, ProbeEvent::Clock { elapsed_ms }) => if elapsed_ms
            < PROBE_TIMEOUT_MS {
            ProbeStep::Poll
        } else {
            ProbeStep::Kill
        },
        (ProbeStep::Poll, ProbeEvent::Polled { status: ChildStatus::Running }) => ProbeStep::Pause,
        (ProbeStep::Poll, ProbeEvent::Polled { status: ChildStatus::Exited }) => ProbeStep::Over,
        (ProbeStep::Poll, ProbeEvent::Polled { status: ChildStatus::Unknown }) => ProbeStep::Kill,
        (ProbeStep::Pause, ProbeEvent::Done) => ProbeStep::ReadClock,
        (ProbeStep::Kill, ProbeEvent::Done) => ProbeStep::Over,
        _ => step,
    }
}

/// Decides the next step of a probe whose shell was started. It begins with
/// [`ProbeStep::Listen`] and ends in [`ProbeStep::Over`].
pub fn await_probe(step: ProbeStep, event: ProbeEvent) -> (r: ProbeStep)
    ensures
        r == probe_next(step, event),
{
    match (step, event) {
        (ProbeStep::Listen, ProbeEvent::Heard { ok }) => if ok {
            ProbeStep::ReadClock
        } else {
            ProbeStep::Kill
        },
        (ProbeStep::ReadClock, ProbeEvent::Clock { elapsed_ms }) => if elapsed_ms
            < PROBE_TIMEOUT_MS {
            ProbeStep::Poll
        } else {
            ProbeStep::Kill
        },
        (ProbeStep::Poll, ProbeEvent::Polled { status }) => match status {
            ChildStatus::Running => ProbeStep::Pause,
            ChildStatus::Exited => ProbeStep::Over,
            ChildStatus::Unknown => ProbeStep::Kill,
        },
        (ProbeStep::Pause, ProbeEvent::Done) => ProbeStep::ReadClock,
        (ProbeStep::Kill, ProbeEvent::Done) => ProbeStep::Over,
        _ => step,
    }
}

/// The step of the probe that a run of events leads to.
pub open spec fn probe_run(events: Seq<ProbeEvent>) -> ProbeStep
    decreases events.len(),
{
    if events.len() == 0 {
        ProbeStep::Listen
    } else {
        probe_next(probe_run(events.drop_last()), events.last())
    }
}

/// Whether each event of a run of the probe came of the step before it.
pub open spec fn probe_run_answers(events: Seq<ProbeEvent>) -> bool
    decreases events.len(),
{
    events.len() > 0 ==> {
        &&& probe_run_answers(events.drop_last())
        &&& probe_answers(probe_run(events.drop_last()), events.last())
    }
}

/// Whether an event shows that the shell's time is up.
pub open spec fn time_is_up(event: ProbeEvent) -> bool {
    ||| event == (ProbeEvent::Heard { ok: false })
    ||| event matches ProbeEvent::Clock { elapsed_ms } && elapsed_ms >= PROBE_TIMEOUT_MS
}

/// A hanging profile never holds up the launch: once the shell's time is up, it is killed, and
/// with that the probe is over.
pub proof fn law_hung_shell_is_killed(events: Seq<ProbeEvent>, i: int)
    requires
        probe_run_answers(events),
        0 <= i < events.len(),
        time_is_up(events[i]),
    ensures
        events.len() == i + 1 ==> probe_run(events) == ProbeStep::Kill,
        events.len() > i + 1 ==> events.len() == i + 2 && probe_run(events) == ProbeStep::Over,
    decreases events.len(),
{
    if events.len() > i + 1 {
        let init = events.drop_last();
        assert(init[i] == events[i]);
        law_hung_shell_is_killed(init, i);
    }
}

/// The probe leaves no shell behind: when it is over, the last step found the shell gone, or
/// killed it.
pub proof fn law_probe_leaves_no_shell(events: Seq<ProbeEvent>)
    requires
        probe_run_answers(events),
        probe_run(events) == ProbeStep::Over,
    ensures
        events.len() > 0,
        probe_run(events.drop_last()) == ProbeStep::Kill || events.last() == (ProbeEvent::Polled {
            status: ChildStatus::Exited,
        }),
{
}

/// Whether a text holds a white space character.
pub open spec fn has_white_space(s: Seq<char>) -> bool {
    exists|i: int| 0 <= i < s.len() && white_space(#[trigger] s[i])
}

/// The variable that a line sets: what stands before its first equals sign is the name, what
/// stands after it the value. A line whose name would be empty or hold white space sets none:
/// it continues a value of several lines.
pub open spec fn assignment(line: Seq<char>) -> Option<(Seq<char>, Seq<char>)> {
    let i = first_index(line, '=');
    if 0 < i < line.len() && !has_white_space(line.take(i)) {
        Some((line.take(i), line.skip(i + 1)))
    } else {
        None
    }
}

/// The variables that lines set, the later ones winning.
pub open spec fn assigned(lines: Seq<Seq<char>>) -> Map<Seq<char>, Seq<char>>
    decreases lines.len(),
{
    if lines.len() == 0 {
        Map::empty()
    } else {
        let before = assigned(lines.drop_last());
        match assignment(lines.last()) {
            Some((name, value)) => before.insert(name, value),
            None => before,
        }
    }
}

/// The position of the first line that is the marker, up to white space at its end, or the
/// number of lines where there is none.
pub open spec fn first_marked(lines: Seq<Seq<char>>, marker: Seq<char>) -> int
    decreases lines.len(),
{
    if lines.len() == 0 || trimmed_end(lines[0]) == marker {
        0
    } else {
        1 + first_marked(lines.skip(1), marker)
    }
}

/// The lines after the first start marker; none where it is missing.
pub open spec fn after_start(lines: Seq<Seq<char>>) -> Seq<Seq<char>> {
    let s = first_marked(lines, START_MARKER@);
    if s < lines.len() {
        lines.skip(s + 1)
    } else {
        seq![]
    }
}

/// The lines between the markers: what follows the first start marker, of the lines before
/// the first end marker.
pub open spec fn section(lines: Seq<Seq<char>>) -> Seq<Seq<char>> {
    after_start(lines.take(first_marked(lines, END_MARKER@)))
}

/// The variables that the output of the probe sets.
pub open spec fn probed_vars(output: Seq<char>) -> Map<Seq<char>, Seq<char>> {
    assigned(section(lines_of(output)))
}

/// `k` is the first marked position if no line before it is the marker, and the line at it
/// is, or the end is reached.
proof fn lemma_is_first_marked(lines: Seq<Seq<char>>, marker: Seq<char>, k: int)
    requires
        0 <= k <= lines.len(),
        forall|j: int| 0 <= j < k ==> trimmed_end(#[trigger] lines[j]) != marker,
        k < lines.len() ==> trimmed_end(lines[k]) == marker,
    ensures
        first_marked(lines, marker) == k,
    decreases lines.len(),
{
    if lines.len() > 0 && k > 0 {
        assert(trimmed_end(lines[0]) != marker);
        let rest = lines.skip(1);
        assert forall|j: int| 0 <= j < k - 1 implies trimmed_end(#[trigger] rest[j]) != marker by {
            assert(rest[j] == lines[j + 1]);
        }
        lemma_is_first_marked(rest, marker, k - 1);
    }
}

/// What `first_marked` finds.
proof fn lemma_first_marked(lines: Seq<Seq<char>>, marker: Seq<char>)
    ensures
        0 <= first_marked(lines, marker) <= lines.len(),
        forall|j: int|
            0 <= j < first_marked(lines, marker) ==> trimmed_end(#[trigger] lines[j]) != marker,
        first_marked(lines, marker) < lines.len() ==> trimmed_end(
            lines[first_marked(lines, marker)],
        ) == marker,
    decreases lines.len(),
{
    if lines.len() > 0 && trimmed_end(lines[0]) != marker {
        let rest = lines.skip(1);
        lemma_first_marked(rest, marker);
        assert forall|j: int| 0 <= j < first_marked(lines, marker) implies trimmed_end(
            #[trigger] lines[j],
        ) != marker by {
            if j > 0 {
                assert(rest[j - 1] == lines[j]);
            }
        }
    }
}

/// How the lines after the start marker grow by one more line.
proof fn lemma_after_start_push(lines: Seq<Seq<char>>, line: Seq<char>)
    ensures
        first_marked(lines, START_MARKER@) < lines.len() ==> {
            &&& after_start(lines.push(line)) == after_start(lines).push(line)
            &&& first_marked(lines.push(line), START_MARKER@) < lines.push(line).len()
        },
        first_marked(lines, START_MARKER@) == lines.len() ==> {
            &&& after_start(lines.push(line)) == Seq::<Seq<char>>::empty()
            &&& first_marked(lines.push(line), START_MARKER@) < lines.push(line).len()
                <==> trimmed_end(line) == START_MARKER@
        },
{
    let s = first_marked(lines, START_MARKER@);
    let longer = lines.push(line);
    lemma_first_marked(lines, START_MARKER@);
    assert forall|j: int| 0 <= j < s implies trimmed_end(#[trigger] longer[j]) != START_MARKER@ by {
        assert(longer[j] == lines[j]);
    }
    if s < lines.len() {
        assert(longer[s] == lines[s]);
        lemma_is_first_marked(longer, START_MARKER@, s);
        assert(longer.skip(s + 1) == lines.skip(s + 1).push(line));
    } else if trimmed_end(line) == START_MARKER@ {
        lemma_is_first_marked(longer, START_MARKER@, s);
        assert(longer.skip(s + 1) == Seq::<Seq<char>>::empty());
    } else {
        assert forall|j: int| 0 <= j < longer.len() implies trimmed_end(#[trigger] longer[j])
            != START_MARKER@ by {
            if j < lines.len() {
                assert(longer[j] == lines[j]);
            }
        }
        lemma_is_first_marked(longer, START_MARKER@, longer.len() as int);
    }
}

/// Cutting the white space off the end of a line leaves its first characters, and cuts white
/// space only.
proof fn lemma_trimmed_end(s: Seq<char>)
    ensures
        trimmed_end(s).len() <= s.len(),
        trimmed_end(s) == s.take(trimmed_end(s).len() as int),
        forall|j: int| trimmed_end(s).len() <= j < s.len() ==> white_space(#[trigger] s[j]),
    decreases s.len(),
{
    if s.len() > 0 && white_space(s.last()) {
        let init = s.drop_last();
        lemma_trimmed_end(init);
        let n = trimmed_end(s).len() as int;
        assert(init.take(n) == s.take(n));
        assert forall|j: int| n <= j < s.len() implies white_space(#[trigger] s[j]) by {
            if j < init.len() {
                assert(init[j] == s[j]);
            }
        }
    } else {
        assert(s.take(s.len() as int) == s);
    }
}

/// A start marker sets no variable.
proof fn lemma_marker_sets_nothing(line: Seq<char>)
    requires
        trimmed_end(line) == START_MARKER@,
    ensures
        assignment(line) is None,
{
    reveal_strlit("__OCW_ENV_START__");
    lemma_trimmed_end(line);
    lemma_first_index(line, '=');
    let i = first_index(line, '=');
    if i < line.len() {
        if i < START_MARKER@.len() {
            assert(START_MARKER@[i] == line[i]);
        } else {
            assert(white_space(line[i]));
        }
    }
}

/// The variable that a line sets, if it sets one.
pub fn parse_assignment(line: &str) -> (r: Option<(String, String)>)
    ensures
        match (r, assignment(line@)) {
            (Some((name, value)), Some((n, v))) => name@ == n && value@ == v,
            (None, None) => true,
            _ => false,
        },
{
    let chars = chars_of(line);
    let mut i: usize = 0;
    while i < chars.len() && chars[i] != '='
        invariant
            chars@ == line@,
            i <= chars.len(),
            forall|j: int| 0 <= j < i ==> chars@[j] != '=' && !white_space(#[trigger] chars@[j]),
        decreases chars.len() - i,
    {
        if is_white_space(chars[i]) {
            proof {
                lemma_first_index(line@, '=');
                let f = first_index(line@, '=');
                assert(f > i);
                assert(line@.take(f)[i as int] == line@[i as int]);
            }
            return None;
        }
        i = i + 1;
    }
    proof {
        lemma_is_first_index(line@, '=', i as int);
        assert forall|j: int| 0 <= j < i implies !white_space(#[trigger] line@.take(i as int)[j]) by {
            assert(line@.take(i as int)[j] == chars@[j]);
        }
    }
    if i == 0 || i == chars.len() {
        return None;
    }
    assert(line@.subrange(0, i as int) == line@.take(i as int));
    assert(line@.subrange(i + 1, line@.len() as int) == line@.skip(i + 1));
    Some((piece(line, 0, i), piece(line, i + 1, chars.len())))
}

/// Reads the variables out of what the probe printed.
pub fn parse_probe_output(output: &str) -> (r: EnvMap)
    ensures
        r@ == probed_vars(output@),
{
    let all = lines(output);
    let ghost ls = lines_of(output@);
    let mut vars = EnvMap::new();
    let mut inside = false;
    let mut i: usize = 0;
    assert(ls.take(0) == Seq::<Seq<char>>::empty());
    while i < all.len()
        invariant
            texts(all@) == ls,
            i <= all.len(),
            ls == lines_of(output@),
            forall|j: int| 0 <= j < i ==> trimmed_end(#[trigger] ls[j]) != END_MARKER@,
            inside == (first_marked(ls.take(i as int), START_MARKER@) < i),
            vars@ == assigned(after_start(ls.take(i as int))),
        decreases all.len() - i,
    {
        let line = all[i].as_str();
        assert(ls[i as int] == line@);
        proof {
            lemma_first_marked(ls.take(i as int), START_MARKER@);
            lemma_after_start_push(ls.take(i as int), line@);
            assert(ls.take(i as int).push(line@) == ls.take(i + 1));
        }
        let ghost body = after_start(ls.take(i as int));
        assert(body.push(line@).drop_last() == body);
        let bare = trim_end(line);
        i = i + 1;
        if same_text(bare.as_str(), START_MARKER) {
            proof {
                markers_differ();
                lemma_marker_sets_nothing(line@);
            }
            inside = true;
        } else if same_text(bare.as_str(), END_MARKER) {
            proof {
                lemma_is_first_marked(ls, END_MARKER@, i - 1);
            }
            return vars;
        } else if inside {
            if let Some((name, value)) = parse_assignment(line) {
                vars.insert(name, value);
            }
        }
    }
    proof {
        lemma_is_first_marked(ls, END_MARKER@, ls.len() as int);
        assert(ls.take(i as int) == ls);
    }
    vars
}

proof fn markers_differ()
    ensures
        START_MARKER@ != END_MARKER@,
{
    reveal_strlit("__OCW_ENV_START__");
    reveal_strlit("__OCW_ENV_END__");
    assert(START_MARKER@.len() != END_MARKER@.len());
}

/// A line that `env` prints for a variable is read back as that variable, whatever its value,
/// as long as its name is not empty and holds no equals sign and no white space.
pub proof fn law_assignment_read_back(name: Seq<char>, value: Seq<char>)
    requires
        name.len() > 0,
        !name.contains('='),
        !has_white_space(name),
    ensures
        assignment(name + seq!['='] + value) == Some((name, value)),
{
    let line = name + seq!['='] + value;
    assert forall|j: int| 0 <= j < name.len() implies line[j] != '=' by {
        assert(line[j] == name[j]);
        assert(name.contains(name[j]));
    }
    lemma_is_first_index(line, '=', name.len() as int);
    assert(line.take(name.len() as int) == name);
    assert(line.skip(name.len() as int + 1) == value);
}

/// Only the lines between the markers count: what a profile prints before the start marker,
/// and anything after the end marker, sets no variable.
pub proof fn law_noise_ignored(
    before: Seq<Seq<char>>,
    start: Seq<char>,
    body: Seq<Seq<char>>,
    end: Seq<char>,
    after: Seq<Seq<char>>,
)
    requires
        trimmed_end(start) == START_MARKER@,
        trimmed_end(end) == END_MARKER@,
        forall|i: int|
            0 <= i < before.len() ==> trimmed_end(#[trigger] before[i]) != START_MARKER@
                && trimmed_end(before[i]) != END_MARKER@,
        forall|i: int| 0 <= i < body.len() ==> trimmed_end(#[trigger] body[i]) != END_MARKER@,
    ensures
        section(before + seq![start] + body + seq![end] + after) == body,
{
    markers_differ();
    let head = before + seq![start] + body;
    let all = head + seq![end] + after;
    assert forall|j: int| 0 <= j < head.len() implies trimmed_end(#[trigger] all[j])
        != END_MARKER@ by {
        if j < before.len() {
            assert(all[j] == before[j]);
        } else if j > before.len() {
            assert(all[j] == body[j - before.len() - 1]);
        }
    }
    assert(all[head.len() as int] == end);
    lemma_is_first_marked(all, END_MARKER@, head.len() as int);
    assert(all.take(head.len() as int) == head);
    assert forall|j: int| 0 <= j < before.len() implies trimmed_end(#[trigger] head[j])
        != START_MARKER@ by {
        assert(head[j] == before[j]);
    }
    assert(head[before.len() as int] == start);
    lemma_is_first_marked(head, START_MARKER@, before.len() as int);
    assert(head.skip(before.len() as int + 1) == body);
}

/// Whether `env` prints a variable in one line that can be told from a continued value: its
/// name is not empty and holds no equals sign and no white space, and its value is one line.
pub open spec fn printable(var: (Seq<char>, Seq<char>)) -> bool {
    &&& var.0.len() > 0
    &&& !var.0.contains('=')
    &&& !has_white_space(var.0)
    &&& one_line(var.1)
}

/// The line that `env` prints for a variable.
pub open spec fn env_line(var: (Seq<char>, Seq<char>)) -> Seq<char> {
    var.0 + seq!['='] + var.1
}

/// The lines that `env` prints.
pub open spec fn env_lines(vars: Seq<(Seq<char>, Seq<char>)>) -> Seq<Seq<char>> {
    vars.map_values(|var: (Seq<char>, Seq<char>)| env_line(var))
}

/// The variables of a list, the later ones winning.
pub open spec fn vars_of(vars: Seq<(Seq<char>, Seq<char>)>) -> Map<Seq<char>, Seq<char>>
    decreases vars.len(),
{
    if vars.len() == 0 {
        Map::empty()
    } else {
        vars_of(vars.drop_last()).insert(vars.last().0, vars.last().1)
    }
}

/// Lines that `env` prints set the variables that it printed them for.
proof fn lemma_env_lines_assigned(vars: Seq<(Seq<char>, Seq<char>)>)
    requires
        forall|i: int| 0 <= i < vars.len() ==> printable(#[trigger] vars[i]),
    ensures
        assigned(env_lines(vars)) == vars_of(vars),
    decreases vars.len(),
{
    if vars.len() > 0 {
        let init = vars.drop_last();
        assert forall|i: int| 0 <= i < init.len() implies printable(#[trigger] init[i]) by {
            assert(init[i] == vars[i]);
        }
        lemma_env_lines_assigned(init);
        assert(env_lines(vars).drop_last() == env_lines(init));
        assert(printable(vars[vars.len() - 1]));
        law_assignment_read_back(vars.last().0, vars.last().1);
    }
}

/// The line of a variable is one line, and not the end marker.
proof fn lemma_env_line(var: (Seq<char>, Seq<char>))
    requires
        printable(var),
    ensures
        one_line(env_line(var)),
        trimmed_end(env_line(var)) != END_MARKER@,
{
    let line = env_line(var);
    let n = var.0.len() as int;
    if line.contains('\n') {
        let k = choose|k: int| 0 <= k < line.len() && line[k] == '\n';
        if k < n {
            assert(var.0[k] == '\n');
            assert(white_space(var.0[k]));
        } else if k > n {
            assert(var.1[k - n - 1] == '\n');
            assert(var.1.contains('\n'));
        }
    }
    if var.1.len() > 0 {
        assert(line.last() == var.1.last());
    }
    if trimmed_end(line) == END_MARKER@ {
        reveal_strlit("__OCW_ENV_END__");
        lemma_trimmed_end(line);
        assert(line[n] == '=');
        if n < END_MARKER@.len() {
            assert(END_MARKER@[n] == line[n]);
        } else {
            assert(white_space(line[n]));
        }
    }
}

/// What the shell's `env` prints is what is read: whatever a profile prints before the start
/// marker and whatever follows the end marker, the variables read are those that were printed
/// between them.
pub proof fn law_probe_reads_back(
    before: Seq<Seq<char>>,
    vars: Seq<(Seq<char>, Seq<char>)>,
    after: Seq<Seq<char>>,
)
    requires
        forall|i: int| 0 <= i < vars.len() ==> printable(#[trigger] vars[i]),
        forall|i: int|
            0 <= i < before.len() ==> one_line(#[trigger] before[i]) && trimmed_end(before[i])
                != START_MARKER@ && trimmed_end(before[i]) != END_MARKER@,
        forall|i: int| 0 <= i < after.len() ==> one_line(#[trigger] after[i]),
    ensures
        probed_vars(
            printed(
                before + seq![START_MARKER@] + env_lines(vars) + seq![END_MARKER@] + after,
            ),
        ) == vars_of(vars),
{
    let body = env_lines(vars);
    let all = before + seq![START_MARKER@] + body + seq![END_MARKER@] + after;
    lemma_markers();
    assert forall|i: int| 0 <= i < body.len() implies one_line(#[trigger] body[i]) && trimmed_end(
        body[i],
    ) != END_MARKER@ by {
        assert(printable(vars[i]));
        lemma_env_line(vars[i]);
    }
    assert forall|i: int| 0 <= i < all.len() implies one_line(#[trigger] all[i]) by {
        let b = before.len() as int;
        let m = body.len() as int;
        if i < b {
            assert(all[i] == before[i]);
        } else if b < i < b + 1 + m {
            assert(all[i] == body[i - b - 1]);
        } else if i > b + 1 + m {
            assert(all[i] == after[i - b - m - 2]);
        }
    }
    lemma_printed_lines(all);
    law_noise_ignored(before, START_MARKER@, body, END_MARKER@, after);
    lemma_env_lines_assigned(vars);
}

/// The markers are lines of their own, without white space at their end.
proof fn lemma_markers()
    ensures
        one_line(START_MARKER@),
        one_line(END_MARKER@),
        trimmed_end(START_MARKER@) == START_MARKER@,
        trimmed_end(END_MARKER@) == END_MARKER@,
{
    reveal_strlit("__OCW_ENV_START__");
    reveal_strlit("__OCW_ENV_END__");
    assert(START_MARKER@.last() == '_');
    assert(END_MARKER@.last() == '_');
}

/// The question that the login shell is asked, which shell is asked where the user has set
/// none, and whom it is asked for: an app that neither a shell launched nor Windows.
pub proof fn law_probe_question(ctx: LaunchContext)
    ensures
        probe_script() == "echo __OCW_ENV_START__; env; echo __OCW_ENV_END__"@,
        default_shell(Platform::MacOs) == "/bin/zsh"@,
        default_shell(Platform::Linux) == "/bin/bash"@,
        default_shell(Platform::OtherUnix) == "/bin/bash"@,
        ctx.has_real_env() <==> ctx.platform == Platform::Windows || ctx.from_shell,
        START_MARKER@ == "__OCW_ENV_START__"@,
        END_MARKER@ == "__OCW_ENV_END__"@,
        PROBE_TIMEOUT_MS == 5000,
        PROBE_PAUSE_MS == 10,
{
    reveal_strlit("echo ");
    reveal_strlit("__OCW_ENV_START__");
    reveal_strlit("; env; echo ");
    reveal_strlit("__OCW_ENV_END__");
    reveal_strlit("echo __OCW_ENV_START__; env; echo __OCW_ENV_END__");
    assert(probe_script() =~= "echo __OCW_ENV_START__; env; echo __OCW_ENV_END__"@);
}

/// Where a probe stands is told by what came last: five seconds are the shell's, whatever it
/// does; within them it is waited for patiently, and let be once it has exited.
pub proof fn law_probe_told_by_last_events(events: Seq<ProbeEvent>)
    requires
        probe_run_answers(events),
    ensures
        events.len() == 0 ==> probe_run(events) == ProbeStep::Listen,
        events.len() > 0 ==> probe_run(events) == match events.last() {
            ProbeEvent::Heard { ok: true } => ProbeStep::ReadClock,
            ProbeEvent::Heard { ok: false } => ProbeStep::Kill,
            ProbeEvent::Clock { elapsed_ms } => if elapsed_ms >= 5000 {
                ProbeStep::Kill
            } else {
                ProbeStep::Poll
            },
            ProbeEvent::Polled { status: ChildStatus::Running } => ProbeStep::Pause,
            ProbeEvent::Polled { status: ChildStatus::Exited } => ProbeStep::Over,
            ProbeEvent::Polled { status: ChildStatus::Unknown } => ProbeStep::Kill,
            ProbeEvent::Done => if events.len() > 1 && events[events.len() - 2]
                == (ProbeEvent::Polled { status: ChildStatus::Running }) {
                ProbeStep::ReadClock
            } else {
                ProbeStep::Over
            },
        },
    decreases events.len(),
{
    if events.len() > 0 {
        let init = events.drop_last();
        law_probe_told_by_last_events(init);
        if init.len() > 0 {
            assert(init.last() == events[events.len() - 2]);
        }
    }
}

/// An event that has nothing to do with the step of the probe at hand changes nothing.
pub proof fn law_probe_stray_events(step: ProbeStep, event: ProbeEvent)
    ensures
        !(step == ProbeStep::Listen && event is Heard) && !(step == ProbeStep::ReadClock
            && event is Clock) && !(step == ProbeStep::Poll && event is Polled) && !((step
            == ProbeStep::Pause || step == ProbeStep::Kill) && event is Done) ==> probe_next(
            step,
            event,
        ) == step,
{
}

/// Whether a line sets a variable to a value: the name, an equals sign, the value, where the
/// name is not empty and holds no equals sign and no white space.
pub open spec fn sets(line: Seq<char>, name: Seq<char>, value: Seq<char>) -> bool {
    &&& line == name + seq!['='] + value
    &&& name.len() > 0
    &&& !name.contains('=')
    &&& forall|i: int| 0 <= i < name.len() ==> !white_space(#[trigger] name[i])
}

/// Whether a line sets a variable, to whatever value.
pub open spec fn sets_name(line: Seq<char>, name: Seq<char>) -> bool {
    exists|value: Seq<char>| sets(line, name, value)
}

/// A line is an assignment exactly if it is a name, an equals sign and a value.
pub proof fn law_assignment(line: Seq<char>, name: Seq<char>, value: Seq<char>)
    ensures
        assignment(line) == Some((name, value)) <==> sets(line, name, value),
{
    if sets(line, name, value) {
        law_assignment_read_back(name, value);
    }
    if assignment(line) == Some((name, value)) {
        lemma_first_index(line, '=');
        let i = first_index(line, '=');
        assert(line == name + seq!['='] + value);
        if name.contains('=') {
            let k = choose|k: int| 0 <= k < name.len() && name[k] == '=';
            assert(line[k] == '=');
        }
        assert forall|k: int| 0 <= k < name.len() implies !white_space(#[trigger] name[k]) by {
            if white_space(name[k]) {
                assert(has_white_space(line.take(i)));
            }
        }
    }
}

/// Whether the last of the lines that set a variable sets it to a value.
pub open spec fn last_sets(lines: Seq<Seq<char>>, name: Seq<char>, value: Seq<char>) -> bool {
    exists|i: int|
        0 <= i < lines.len() && sets(#[trigger] lines[i], name, value) && forall|j: int|
            i < j < lines.len() ==> !sets_name(#[trigger] lines[j], name)
}

/// A variable has the value that the last line that sets it gives it, and only the variables
/// that a line sets are there.
pub proof fn law_last_assignment_wins(
    lines: Seq<Seq<char>>,
    name: Seq<char>,
    value: Seq<char>,
)
    ensures
        assigned(lines).contains_pair(name, value) <==> last_sets(lines, name, value),
    decreases lines.len(),
{
    if lines.len() > 0 {
        let init = lines.drop_last();
        let last = lines.last();
        let n = lines.len() - 1;
        assert(last == lines[n]);
        law_last_assignment_wins(init, name, value);
        law_assignment(last, name, value);
        if sets_name(last, name) {
            let w = choose|w: Seq<char>| sets(last, name, w);
            law_assignment(last, name, w);
            if last_sets(lines, name, value) {
                let i = choose|i: int|
                    0 <= i < lines.len() && sets(#[trigger] lines[i], name, value) && forall|j: int|
                        i < j < lines.len() ==> !sets_name(#[trigger] lines[j], name);
                if i < n {
                    assert(!sets_name(lines[n], name));
                }
                assert(i == n);
            }
            if w == value {
                assert(sets(lines[n], name, value));
            }
        } else {
            if assignment(last) is Some && (assignment(last)->0).0 == name {
                law_assignment(last, name, (assignment(last)->0).1);
                assert(sets_name(last, name));
            }
            if last_sets(init, name, value) {
                let i = choose|i: int|
                    0 <= i < init.len() && sets(#[trigger] init[i], name, value) && forall|j: int|
                        i < j < init.len() ==> !sets_name(#[trigger] init[j], name);
                assert(sets(lines[i], name, value));
                assert forall|j: int| i < j < lines.len() implies !sets_name(
                    #[trigger] lines[j],
                    name,
                ) by {
                    if j < n {
                        assert(lines[j] == init[j]);
                    }
                }
            }
            if last_sets(lines, name, value) {
                let i = choose|i: int|
                    0 <= i < lines.len() && sets(#[trigger] lines[i], name, value) && forall|j: int|
                        i < j < lines.len() ==> !sets_name(#[trigger] lines[j], name);
                assert(i < n) by {
                    if i == n {
                        assert(sets_name(last, name));
                    }
                }
                assert(sets(init[i], name, value));
                assert forall|j: int| i < j < init.len() implies !sets_name(
                    #[trigger] init[j],
                    name,
                ) by {
                    assert(init[j] == lines[j]);
                }
            }
        }
    }
}

/// Whether a printed line is neither of the markers, whatever white space ends it.
pub open spec fn no_marker(line: Seq<char>) -> bool {
    trimmed_end(line) != "__OCW_ENV_START__"@ && trimmed_end(line) != "__OCW_ENV_END__"@
}

/// A marker line is the marker, whatever white space ends it.
proof fn lemma_padded_markers(pad: Seq<char>)
    requires
        all_white(pad),
    ensures
        trimmed_end("__OCW_ENV_START__"@ + pad) == START_MARKER@,
        trimmed_end("__OCW_ENV_END__"@ + pad) == END_MARKER@,
{
    reveal_strlit("__OCW_ENV_START__");
    reveal_strlit("__OCW_ENV_END__");
    assert(START_MARKER@.last() == '_');
    assert(END_MARKER@.last() == '_');
    law_trimmed_end(START_MARKER@, pad);
    law_trimmed_end(END_MARKER@, pad);
}

/// What is read of what the probe printed: of the lines between the marker lines, which may end
/// in white space, each variable has the value of the last line that sets it. What comes before
/// and after the markers is ignored.
pub proof fn law_output_read(
    output: Seq<char>,
    before: Seq<Seq<char>>,
    start_pad: Seq<char>,
    body: Seq<Seq<char>>,
    end_pad: Seq<char>,
    after: Seq<Seq<char>>,
    name: Seq<char>,
    value: Seq<char>,
)
    requires
        lines_of(output) == before + seq!["__OCW_ENV_START__"@ + start_pad] + body + seq![
            "__OCW_ENV_END__"@ + end_pad,
        ] + after,
        all_white(start_pad),
        all_white(end_pad),
        forall|i: int| 0 <= i < before.len() ==> no_marker(#[trigger] before[i]),
        forall|i: int|
            0 <= i < body.len() ==> trimmed_end(#[trigger] body[i]) != "__OCW_ENV_END__"@,
    ensures
        probed_vars(output).contains_pair(name, value) <==> last_sets(body, name, value),
{
    lemma_padded_markers(start_pad);
    lemma_padded_markers(end_pad);
    law_noise_ignored(
        before,
        "__OCW_ENV_START__"@ + start_pad,
        body,
        "__OCW_ENV_END__"@ + end_pad,
        after,
    );
    law_last_assignment_wins(body, name, value);
}

/// Where the end marker is missing, all lines after the start marker count.
pub proof fn law_output_without_end(
    output: Seq<char>,
    before: Seq<Seq<char>>,
    start_pad: Seq<char>,
    body: Seq<Seq<char>>,
    name: Seq<char>,
    value: Seq<char>,
)
    requires
        lines_of(output) == before + seq!["__OCW_ENV_START__"@ + start_pad] + body,
        all_white(start_pad),
        forall|i: int| 0 <= i < before.len() ==> no_marker(#[trigger] before[i]),
        forall|i: int|
            0 <= i < body.len() ==> trimmed_end(#[trigger] body[i]) != "__OCW_ENV_END__"@,
    ensures
        probed_vars(output).contains_pair(name, value) <==> last_sets(body, name, value),
{
    lemma_padded_markers(start_pad);
    markers_differ();
    law_last_assignment_wins(body, name, value);
    let head = lines_of(output);
    let b = before.len() as int;
    assert forall|j: int| 0 <= j < head.len() implies trimmed_end(#[trigger] head[j])
        != END_MARKER@ by {
        if j < b {
            assert(head[j] == before[j]);
        } else if j > b {
            assert(head[j] == body[j - b - 1]);
        }
    }
    lemma_is_first_marked(head, END_MARKER@, head.len() as int);
    assert(head.take(head.len() as int) == head);
    assert forall|j: int| 0 <= j < b implies trimmed_end(#[trigger] head[j]) != START_MARKER@ by {
        assert(head[j] == before[j]);
    }
    assert(head[b] == "__OCW_ENV_START__"@ + start_pad);
    lemma_is_first_marked(head, START_MARKER@, b);
    assert(head.skip(b + 1) == body);
}

/// Where no start marker comes before the end marker, or none at all, nothing is read.
pub proof fn law_output_without_start(
    output: Seq<char>,
    before: Seq<Seq<char>>,
    end_pad: Seq<char>,
    after: Seq<Seq<char>>,
)
    requires
        lines_of(output) == before || lines_of(output) == before + seq![
            "__OCW_ENV_END__"@ + end_pad,
        ] + after,
        all_white(end_pad),
        forall|i: int| 0 <= i < before.len() ==> no_marker(#[trigger] before[i]),
    ensures
        probed_vars(output) == Map::<Seq<char>, Seq<char>>::empty(),
{
    lemma_padded_markers(end_pad);
    let b = before.len() as int;
    let lines = lines_of(output);
    assert forall|j: int| 0 <= j < b implies trimmed_end(#[trigger] lines[j]) != END_MARKER@ by {
        assert(lines[j] == before[j]);
    }
    if lines.len() > b {
        assert(lines[b] == "__OCW_ENV_END__"@ + end_pad);
    }
    lemma_is_first_marked(lines, END_MARKER@, b);
    assert(lines.take(b) == before);
    lemma_is_first_marked(before, START_MARKER@, b);
}

} // verus!
