//! Voice input: which devices can have it, and what the commands answer.
use vstd::prelude::*;

use crate::text::{
    ascii_digit, chars_of, decimal, first_index, law_number_read_back, law_number_syntax,
    lemma_decimal_digits, lemma_first_index, lemma_is_first_index, opt_text, parse_u32, parsed_u32,
    piece, same_text, trim, trimmed,
};

verus! {

/// What decides whether a device can have voice input.
pub enum DeviceFacts {
    MacOs {
        /// What `sw_vers -productVersion` printed, if it succeeded.
        version: Option<String>,
        /// The processor architecture.
        arch: String,
    },
    Windows {
        /// What `ver` printed, if it could be run.
        version: Option<String>,
        /// The processor architecture.
        arch: String,
    },
    /// Linux, and the other Unixes.
    Unix {
        /// The processor architecture.
        arch: String,
        /// The name of the capture device, if there is one.
        microphone: Option<String>,
    },
}

/// A version text without the white space around it, or what stands for an unknown version.
pub open spec fn version_text(version: Option<Seq<char>>, unknown: Seq<char>) -> Seq<char> {
    match version {
        Some(text) => trimmed(text),
        None => unknown,
    }
}

/// What stands before the first dot.
pub open spec fn before_dot(s: Seq<char>) -> Seq<char> {
    s.take(first_index(s, '.'))
}

/// What stands after the first dot, if there is one.
pub open spec fn after_dot(s: Seq<char>) -> Option<Seq<char>> {
    if first_index(s, '.') < s.len() {
        Some(s.skip(first_index(s, '.') + 1))
    } else {
        None
    }
}

/// The number that a text stands for, or zero.
pub open spec fn number_or_zero(s: Seq<char>) -> u32 {
    match parsed_u32(s) {
        Some(n) => n,
        None => 0,
    }
}

/// The major version: the number before the first dot, or zero.
pub open spec fn major_of(version: Seq<char>) -> u32 {
    number_or_zero(before_dot(version))
}

/// Whether a character can stand in a dotted version number.
pub open spec fn version_char(c: char) -> bool {
    ascii_digit(c) || c == '.'
}

/// The length of the run of version characters that a text starts with.
pub open spec fn version_run(s: Seq<char>) -> int
    decreases s.len(),
{
    if s.len() == 0 || !version_char(s[0]) {
        0
    } else {
        1 + version_run(s.skip(1))
    }
}

/// The third of the parts that dots separate, if there are two dots.
pub open spec fn third_part(run: Seq<char>) -> Option<Seq<char>> {
    match after_dot(run) {
        Some(rest) => match after_dot(rest) {
            Some(third) => Some(before_dot(third)),
            None => None,
        },
        None => None,
    }
}

/// The build number in the version line of Windows: the third part of the first run of digits
/// and dots that has two dots, or zero.
pub open spec fn build_of(version: Seq<char>) -> u32
    decreases version.len(),
    via build_of_shrinks
{
    let n = version_run(version);
    match third_part(version.take(n)) {
        Some(part) => number_or_zero(part),
        None => if n < version.len() {
            build_of(version.skip(n + 1))
        } else {
            0
        },
    }
}

#[via_fn]
proof fn build_of_shrinks(version: Seq<char>) {
    lemma_version_run(version);
}

/// What `version_run` finds.
proof fn lemma_version_run(s: Seq<char>)
    ensures
        0 <= version_run(s) <= s.len(),
        forall|j: int| 0 <= j < version_run(s) ==> version_char(#[trigger] s[j]),
        version_run(s) < s.len() ==> !version_char(s[version_run(s)]),
    decreases s.len(),
{
    if s.len() > 0 && version_char(s[0]) {
        let t = s.skip(1);
        lemma_version_run(t);
        assert forall|j: int| 0 <= j < version_run(s) implies version_char(#[trigger] s[j]) by {
            if j > 0 {
                assert(s[j] == t[j - 1]);
            }
        }
    }
}

/// `n` is the length of the first run if all characters before it are version characters, and
/// the one at it is not, or the end is reached.
proof fn lemma_is_version_run(s: Seq<char>, n: int)
    requires
        0 <= n <= s.len(),
        forall|j: int| 0 <= j < n ==> version_char(#[trigger] s[j]),
        n < s.len() ==> !version_char(s[n]),
    ensures
        version_run(s) == n,
    decreases s.len(),
{
    if n > 0 {
        assert(version_char(s[0]));
        let t = s.skip(1);
        assert forall|j: int| 0 <= j < n - 1 implies version_char(#[trigger] t[j]) by {
            assert(t[j] == s[j + 1]);
        }
        lemma_is_version_run(t, n - 1);
    }
}

/// Whether the device can have voice input.
pub open spec fn voice_supported(facts: DeviceFacts) -> bool {
    match facts {
        DeviceFacts::MacOs { version, arch } => arch@ == "aarch64"@ && major_of(
            version_text(opt_text(version), "unknown version"@),
        ) >= 12,
        DeviceFacts::Windows { version, arch } => arch@ == "x86_64"@ && build_of(
            version_text(opt_text(version), "Windows (unknown version)"@),
        ) >= 19_045,
        DeviceFacts::Unix { microphone, .. } => microphone is Some,
    }
}

/// What the settings show of the device.
pub open spec fn device_summary(facts: DeviceFacts) -> Seq<char> {
    match facts {
        DeviceFacts::MacOs { version, arch } => "macOS "@ + version_text(
            opt_text(version),
            "unknown version"@,
        ) + " · "@ + (if arch@ == "aarch64"@ {
            "Apple Silicon"@
        } else {
            "Intel"@
        }),
        DeviceFacts::Windows { version, .. } => version_text(
            opt_text(version),
            "Windows (unknown version)"@,
        ) + " · x64"@,
        DeviceFacts::Unix { arch, microphone } => "Linux · "@ + arch@ + (match microphone {
            Some(name) => " · "@ + name@,
            None => seq![],
        }),
    }
}

/// Why the device cannot have voice input, if it cannot: the processor is named before the
/// version.
pub open spec fn refusal_reason(facts: DeviceFacts) -> Option<Seq<char>> {
    match facts {
        DeviceFacts::MacOs { version, arch } => if arch@ != "aarch64"@ {
            Some("Voice Input currently requires an Apple Silicon Mac (M1 or newer)."@)
        } else if major_of(version_text(opt_text(version), "unknown version"@)) < 12 {
            Some("Voice Input requires macOS 12 or newer."@)
        } else {
            None
        },
        DeviceFacts::Windows { version, arch } => if arch@ != "x86_64"@ {
            Some("Voice Input currently requires a 64-bit x64 Windows PC."@)
        } else if build_of(version_text(opt_text(version), "Windows (unknown version)"@))
            < 19_045 {
            Some("Voice Input requires Windows 10 22H2 or Windows 11."@)
        } else {
            None
        },
        DeviceFacts::Unix { microphone, .. } => match microphone {
            Some(_) => None,
            None => Some("No microphone was found. Connect one and reopen Settings."@),
        },
    }
}

fn dot_from(s: &str) -> (r: usize)
    ensures
        r == first_index(s@, '.'),
        r <= s@.len(),
{
    let chars = chars_of(s);
    let mut i: usize = 0;
    while i < chars.len() && chars[i] != '.'
        invariant
            chars@ == s@,
            i <= chars.len(),
            forall|j: int| 0 <= j < i ==> chars@[j] != '.',
        decreases chars.len() - i,
    {
        i = i + 1;
    }
    proof {
        lemma_is_first_index(s@, '.', i as int);
    }
    i
}

fn text_before_dot(s: &str) -> (r: String)
    ensures
        r@ == before_dot(s@),
{
    let i = dot_from(s);
    assert(s@.subrange(0, i as int) == s@.take(i as int));
    piece(s, 0, i)
}

fn text_after_dot(s: &str) -> (r: Option<String>)
    ensures
        opt_text(r) == after_dot(s@),
{
    let i = dot_from(s);
    let n = chars_of(s).len();
    if i < n {
        assert(s@.subrange(i + 1, n as int) == s@.skip(i + 1));
        Some(piece(s, i + 1, n))
    } else {
        None
    }
}

fn parse_or_zero(s: &str) -> (r: u32)
    ensures
        r == number_or_zero(s@),
{
    match parse_u32(s) {
        Some(n) => n,
        None => 0,
    }
}

/// The major version of macOS in a version text.
pub fn macos_major(version: &str) -> (r: u32)
    ensures
        r == major_of(version@),
{
    parse_or_zero(text_before_dot(version).as_str())
}

/// The build number of Windows in its version line.
pub fn windows_build(version: &str) -> (r: u32)
    ensures
        r == build_of(version@),
{
    let chars = chars_of(version);
    let mut pos: usize = 0;
    assert(version@.skip(0) == version@);
    loop
        invariant
            chars@ == version@,
            pos <= chars.len(),
            build_of(version@) == build_of(version@.skip(pos as int)),
        decreases chars.len() - pos,
    {
        let ghost rest = version@.skip(pos as int);
        let mut end: usize = pos;
        while end < chars.len() && (chars[end] == '.' || ('0' <= chars[end] && chars[end] <= '9'))
            invariant
                chars@ == version@,
                pos <= end <= chars.len(),
                forall|j: int| pos <= j < end ==> version_char(#[trigger] chars@[j]),
            decreases chars.len() - end,
        {
            end = end + 1;
        }
        proof {
            assert forall|j: int| 0 <= j < end - pos implies version_char(#[trigger] rest[j]) by {
                assert(rest[j] == chars@[pos + j]);
            }
            lemma_is_version_run(rest, end - pos);
            assert(version@.subrange(pos as int, end as int) == rest.take(end - pos));
        }
        let run = piece(version, pos, end);
        if let Some(after) = text_after_dot(run.as_str()) {
            if let Some(third) = text_after_dot(after.as_str()) {
                return parse_or_zero(text_before_dot(third.as_str()).as_str());
            }
        }
        if end == chars.len() {
            return 0;
        }
        assert(rest.skip(end - pos + 1) == version@.skip(end + 1));
        pos = end + 1;
    }
}

fn known_version(version: &Option<String>, unknown: &str) -> (r: String)
    ensures
        r@ == version_text(opt_text(*version), unknown@),
{
    match version {
        Some(text) => trim(text.as_str()),
        None => unknown.to_owned(),
    }
}

/// Whether the device can have voice input, what the settings show of it, and why it cannot
/// have it if it cannot.
pub fn voice_input_compatibility(facts: &DeviceFacts) -> (r: (bool, String, Option<String>))
    ensures
        r.0 == voice_supported(*facts),
        r.1@ == device_summary(*facts),
        opt_text(r.2) == refusal_reason(*facts),
{
    match facts {
        DeviceFacts::MacOs { version, arch } => {
            let version = known_version(version, "unknown version");
            let major = macos_major(version.as_str());
            let apple_silicon = same_text(arch.as_str(), "aarch64");
            let mut summary = "macOS ".to_owned();
            summary.append(version.as_str());
            summary.append(" · ");
            summary.append(
                if apple_silicon {
                    "Apple Silicon"
                } else {
                    "Intel"
                },
            );
            let reason = if !apple_silicon {
                Some(
                    "Voice Input currently requires an Apple Silicon Mac (M1 or newer).".to_owned(),
                )
            } else if major < 12 {
                Some("Voice Input requires macOS 12 or newer.".to_owned())
            } else {
                None
            };
            (apple_silicon && major >= 12, summary, reason)
        },
        DeviceFacts::Windows { version, arch } => {
            let version = known_version(version, "Windows (unknown version)");
            let build = windows_build(version.as_str());
            let x64 = same_text(arch.as_str(), "x86_64");
            let reason = if !x64 {
                Some("Voice Input currently requires a 64-bit x64 Windows PC.".to_owned())
            } else if build < 19_045 {
                Some("Voice Input requires Windows 10 22H2 or Windows 11.".to_owned())
            } else {
                None
            };
            let mut summary = version;
            summary.append(" · x64");
            (x64 && build >= 19_045, summary, reason)
        },
        DeviceFacts::Unix { arch, microphone } => {
            let mut summary = "Linux · ".to_owned();
            summary.append(arch.as_str());
            match microphone {
                Some(name) => {
                    summary.append(" · ");
                    summary.append(name.as_str());
                    assert(summary@ == device_summary(*facts));
                    (true, summary, None)
                },
                None => {
                    assert(summary@ == device_summary(*facts));
                    (
                        false,
                        summary,
                        Some("No microphone was found. Connect one and reopen Settings.".to_owned()),
                    )
                },
            }
        },
    }
}

/// The report is consistent, whatever the device: there is a summary to show, and a device
/// that cannot have voice input says why, and only such a one.
pub proof fn law_compatibility_consistent(facts: DeviceFacts)
    ensures
        device_summary(facts).len() > 0,
        voice_supported(facts) <==> refusal_reason(facts) is None,
{
    reveal_strlit("macOS ");
    reveal_strlit(" · x64");
    reveal_strlit("Linux · ");
}

/// Outside macOS and Windows, voice input is supported exactly if there is a capture device.
pub proof fn law_unix_tracks_microphone(arch: String, microphone: Option<String>)
    ensures
        voice_supported(DeviceFacts::Unix { arch, microphone }) <==> microphone is Some,
{
}

/// What the dictation engine reports of itself.
pub struct DictationStatus {
    pub recording: bool,
    pub model_installed: bool,
    pub model_verified: bool,
    pub test_passed: bool,
    pub download_in_progress: bool,
    pub model_name: String,
    pub model_bytes: u64,
}

/// What the settings show of voice input.
pub struct VoiceInputStatus {
    pub recording: bool,
    pub model_installed: bool,
    pub model_verified: bool,
    pub test_passed: bool,
    pub download_in_progress: bool,
    pub model_name: String,
    pub model_bytes: u64,
    pub supported: bool,
    pub device_summary: String,
    pub compatibility_reason: Option<String>,
}

impl VoiceInputStatus {
    /// Whether this is the engine's report together with that of the device.
    pub open spec fn reports(self, status: DictationStatus, facts: DeviceFacts) -> bool {
        &&& self.recording == status.recording
        &&& self.model_installed == status.model_installed
        &&& self.model_verified == status.model_verified
        &&& self.test_passed == status.test_passed
        &&& self.download_in_progress == status.download_in_progress
        &&& self.model_name@ == status.model_name@
        &&& self.model_bytes == status.model_bytes
        &&& self.supported == voice_supported(facts)
        &&& self.device_summary@ == device_summary(facts)
        &&& opt_text(self.compatibility_reason) == refusal_reason(facts)
    }
}

/// What the settings show of voice input, from the engine's report and the device.
pub fn voice_input_status(status: DictationStatus, facts: &DeviceFacts) -> (r: VoiceInputStatus)
    ensures
        r.reports(status, *facts),
        r.recording == status.recording,
        r.model_installed == status.model_installed,
        r.model_verified == status.model_verified,
        r.test_passed == status.test_passed,
        r.download_in_progress == status.download_in_progress,
        r.model_name@ == status.model_name@,
        r.model_bytes == status.model_bytes,
        r.supported == voice_supported(*facts),
        r.device_summary@ == device_summary(*facts),
        opt_text(r.compatibility_reason) == refusal_reason(*facts),
{
    let (supported, device_summary, compatibility_reason) = voice_input_compatibility(facts);
    VoiceInputStatus {
        recording: status.recording,
        model_installed: status.model_installed,
        model_verified: status.model_verified,
        test_passed: status.test_passed,
        download_in_progress: status.download_in_progress,
        model_name: status.model_name,
        model_bytes: status.model_bytes,
        supported,
        device_summary,
        compatibility_reason,
    }
}

/// Whether dictation may be started on the device. One that cannot have voice input answers
/// with its reason.
pub fn start_dictation(facts: &DeviceFacts) -> (r: Result<(), String>)
    ensures
        r is Ok <==> voice_supported(*facts),
        r is Err ==> Some(r->Err_0@) == refusal_reason(*facts),
{
    proof {
        law_compatibility_consistent(*facts);
    }
    let (supported, _summary, reason) = voice_input_compatibility(facts);
    if supported {
        return Ok(());
    }
    match reason {
        Some(text) => Err(text),
        None => Err("Voice Input is not supported on this device.".to_owned()),
    }
}

/// What became of work that was handed to another thread.
pub enum TaskOutcome<T> {
    /// It was done, with this result.
    Done(T),
    /// It failed, with this message.
    Failed(String),
    /// The thread was lost, with this message.
    Lost(String),
}

/// The work that the dictation commands hand to another thread.
#[derive(Clone, Copy, PartialEq, Eq, Structural, Debug)]
pub enum DictationTask {
    Start,
    Stop,
    Download,
    Verify,
}

/// What is said of a task whose thread was lost, before the thread's own message.
pub open spec fn lost_prefix(task: DictationTask) -> Seq<char> {
    match task {
        DictationTask::Start => "Dictation failed to start: "@,
        DictationTask::Stop => "Dictation stopped unexpectedly: "@,
        DictationTask::Download => "Voice model download stopped unexpectedly: "@,
        DictationTask::Verify => "Voice model verification stopped unexpectedly: "@,
    }
}

/// The answer to a dictation command, by what became of its task: the result; the message of
/// a failure as it is; and for a lost thread what was lost, and its message.
pub fn dictation_answer<T>(task: DictationTask, outcome: TaskOutcome<T>) -> (r: Result<T, String>)
    ensures
        match outcome {
            TaskOutcome::Done(value) => r == Ok::<T, String>(value),
            TaskOutcome::Failed(message) => r is Err && r->Err_0@ == message@,
            TaskOutcome::Lost(message) => r is Err && r->Err_0@ == lost_prefix(task) + message@,
        },
{
    match outcome {
        TaskOutcome::Done(value) => Ok(value),
        TaskOutcome::Failed(message) => Err(message),
        TaskOutcome::Lost(message) => {
            let prefix = match task {
                DictationTask::Start => "Dictation failed to start: ",
                DictationTask::Stop => "Dictation stopped unexpectedly: ",
                DictationTask::Download => "Voice model download stopped unexpectedly: ",
                DictationTask::Verify => "Voice model verification stopped unexpectedly: ",
            };
            let mut text = prefix.to_owned();
            text.append(message.as_str());
            Err(text)
        },
    }
}

/// The major version is the number before the first dot, or the whole where there is no dot;
/// zero where that is no number that fits.
pub proof fn law_macos_major(before: Seq<char>, rest: Seq<char>)
    requires
        !before.contains('.'),
    ensures
        parsed_u32(before) matches Some(n) ==> major_of(before) == n && major_of(
            before + seq!['.'] + rest,
        ) == n,
        parsed_u32(before) is None ==> major_of(before) == 0 && major_of(
            before + seq!['.'] + rest,
        ) == 0,
{
    let n = before.len() as int;
    let dotted = before + seq!['.'] + rest;
    lemma_until(before, seq![]);
    assert(before + Seq::<char>::empty() == before);
    lemma_until(before, seq!['.'] + rest);
    assert(dotted == before + (seq!['.'] + rest));
    assert(before.take(n) == before);
    assert(dotted.take(n) == before);
}

/// A number in decimal holds no dot.
proof fn lemma_decimal_without_dot(n: nat)
    ensures
        !decimal(n).contains('.'),
{
    lemma_decimal_digits(n);
    if decimal(n).contains('.') {
        let k = choose|k: int| 0 <= k < decimal(n).len() && decimal(n)[k] == '.';
        assert(ascii_digit(decimal(n)[k]));
    }
}

/// An Apple Silicon Mac can have voice input from macOS 12 on: where the version, without the
/// white space around it, is a number, alone or followed by a dot and anything, it is supported
/// exactly if the number is 12 or more, however large. Another Mac cannot have it, whatever its
/// version.
pub proof fn law_macos_from_12_on(
    version: String,
    arch: String,
    n: nat,
    rest: Seq<char>,
)
    requires
        n <= 0xffff_ffff,
        trimmed(version@) == decimal(n) || trimmed(version@) == decimal(n) + seq!['.'] + rest,
    ensures
        ({
            let facts = DeviceFacts::MacOs { version: Some(version), arch };
            &&& voice_supported(facts) <==> arch@ == "aarch64"@ && n >= 12
            &&& arch@ == "aarch64"@ && n < 12 ==> refusal_reason(facts) == Some(
                "Voice Input requires macOS 12 or newer."@,
            )
        }),
{
    lemma_decimal_without_dot(n);
    law_number_read_back(n);
    law_macos_major(decimal(n), rest);
}

/// A Mac whose version is unknown, or does not begin with a number that fits, is refused.
pub proof fn law_macos_without_number(
    version: Option<String>,
    arch: String,
    before: Seq<char>,
    rest: Seq<char>,
)
    requires
        !before.contains('.'),
        parsed_u32(before) is None,
        version matches Some(v) ==> trimmed(v@) == before || trimmed(v@) == before + seq!['.']
            + rest,
    ensures
        !voice_supported(DeviceFacts::MacOs { version, arch }),
        arch@ == "aarch64"@ ==> refusal_reason(DeviceFacts::MacOs { version, arch }) == Some(
            "Voice Input requires macOS 12 or newer."@,
        ),
{
    law_macos_major(before, rest);
    if version is None {
        reveal_strlit("unknown version");
        let s = "unknown version"@;
        assert(s[0] == 'u');
        law_number_syntax(s, 0);
        law_macos_major(s, rest);
    }
}

/// Whether two dots stand in one run of digits and dots.
pub open spec fn two_dots_in_a_run(s: Seq<char>) -> bool {
    exists|i: int, j: int| #![trigger s[i], s[j]]
        0 <= i < j < s.len() && s[i] == '.' && s[j] == '.' && forall|k: int|
            i < k < j ==> '0' <= #[trigger] s[k] <= '9' || s[k] == '.'
}

/// A text of version characters with two dots is a run with two dots, and one that has no two
/// has no third part.
proof fn lemma_no_third_part(run: Seq<char>)
    requires
        forall|k: int| 0 <= k < run.len() ==> version_char(#[trigger] run[k]),
        !two_dots_in_a_run(run),
    ensures
        third_part(run) is None,
{
    lemma_first_index(run, '.');
    let a = first_index(run, '.');
    if a < run.len() {
        let rest = run.skip(a + 1);
        lemma_first_index(rest, '.');
        let b = first_index(rest, '.');
        if b < rest.len() {
            assert(run[a] == '.' && run[a + 1 + b] == '.');
            assert forall|k: int| a < k < a + 1 + b implies '0' <= #[trigger] run[k] <= '9'
                || run[k] == '.' by {
                assert(version_char(run[k]));
            }
            assert(two_dots_in_a_run(run));
        }
    }
}

/// The third part of a dotted text is what stands between its second dot and its third, or its
/// end.
proof fn lemma_third_part(a: Seq<char>, b: Seq<char>, c: Seq<char>, more: Seq<char>)
    requires
        !a.contains('.'),
        !b.contains('.'),
        !c.contains('.'),
        more.len() > 0 ==> more[0] == '.',
    ensures
        third_part(a + seq!['.'] + b + seq!['.'] + c + more) == Some(c),
{
    let tail = c + more;
    let rest = b + seq!['.'] + tail;
    let run = a + seq!['.'] + rest;
    assert(run == a + seq!['.'] + b + seq!['.'] + c + more);
    lemma_until(a, seq!['.'] + rest);
    assert(run == a + (seq!['.'] + rest));
    assert(run.skip(a.len() as int + 1) == rest);
    lemma_until(b, seq!['.'] + tail);
    assert(rest == b + (seq!['.'] + tail));
    assert(rest.skip(b.len() as int + 1) == tail);
    lemma_until(c, more);
    assert(tail.take(c.len() as int) == c);
}

proof fn lemma_until(a: Seq<char>, rest: Seq<char>)
    requires
        !a.contains('.'),
        rest.len() > 0 ==> rest[0] == '.',
    ensures
        first_index(a + rest, '.') == a.len(),
{
    let s = a + rest;
    assert forall|j: int| 0 <= j < a.len() implies s[j] != '.' by {
        assert(s[j] == a[j]);
        assert(a.contains(a[j]));
    }
    lemma_is_first_index(s, '.', a.len() as int);
}

/// A prefix that ends a run and holds no run with two dots does not matter to the build number.
proof fn lemma_build_skips(pre: Seq<char>, rest: Seq<char>)
    requires
        pre.len() > 0 ==> !version_char(pre.last()),
        !two_dots_in_a_run(pre),
    ensures
        build_of(pre + rest) == build_of(rest),
    decreases pre.len(),
{
    let s = pre + rest;
    if pre.len() == 0 {
        assert(s == rest);
    } else {
        let n = version_run(pre);
        lemma_version_run(pre);
        if n == pre.len() {
            assert(version_char(pre[pre.len() - 1]));
        }
        assert forall|j: int| 0 <= j < n implies version_char(#[trigger] s[j]) by {
            assert(s[j] == pre[j]);
        }
        assert(s[n] == pre[n]);
        lemma_is_version_run(s, n);
        let run = s.take(n);
        assert(run == pre.take(n));
        assert(!two_dots_in_a_run(run)) by {
            if two_dots_in_a_run(run) {
                let (i, j) = choose|i: int, j: int| #![trigger run[i], run[j]]
                    0 <= i < j < run.len() && run[i] == '.' && run[j] == '.' && forall|k: int|
                        i < k < j ==> '0' <= #[trigger] run[k] <= '9' || run[k] == '.';
                assert(pre[i] == '.' && pre[j] == '.');
                assert forall|k: int| i < k < j implies '0' <= #[trigger] pre[k] <= '9' || pre[k]
                    == '.' by {
                    assert(pre[k] == run[k]);
                }
            }
        }
        lemma_no_third_part(run);
        let tail = pre.skip(n + 1);
        assert(s.skip(n + 1) == tail + rest);
        assert(!two_dots_in_a_run(tail)) by {
            if two_dots_in_a_run(tail) {
                let (i, j) = choose|i: int, j: int| #![trigger tail[i], tail[j]]
                    0 <= i < j < tail.len() && tail[i] == '.' && tail[j] == '.' && forall|k: int|
                        i < k < j ==> '0' <= #[trigger] tail[k] <= '9' || tail[k] == '.';
                let d = n + 1;
                assert(pre[i + d] == '.' && pre[j + d] == '.');
                assert forall|k: int| i + d < k < j + d implies '0' <= #[trigger] pre[k] <= '9'
                    || pre[k] == '.' by {
                    assert(pre[k] == tail[k - d]);
                }
            }
        }
        if tail.len() > 0 {
            assert(tail.last() == pre.last());
        }
        lemma_build_skips(tail, rest);
    }
}

/// Whether every character of a text is a digit.
pub open spec fn digits_only(s: Seq<char>) -> bool {
    forall|k: int| 0 <= k < s.len() ==> '0' <= #[trigger] s[k] <= '9'
}

proof fn lemma_digits_without_dot(s: Seq<char>)
    requires
        digits_only(s),
    ensures
        !s.contains('.'),
{
    if s.contains('.') {
        let k = choose|k: int| 0 <= k < s.len() && s[k] == '.';
        assert('0' <= s[k] <= '9');
    }
}

/// The build number is the third part of the first run of digits and dots with two dots,
/// whatever comes before and after that run; zero where that is no number that fits, or where
/// there is no such run.
pub proof fn law_windows_build(
    pre: Seq<char>,
    a: Seq<char>,
    b: Seq<char>,
    c: Seq<char>,
    more: Seq<char>,
    post: Seq<char>,
)
    requires
        pre.len() > 0 ==> !('0' <= pre.last() <= '9') && pre.last() != '.',
        !two_dots_in_a_run(pre),
        digits_only(a),
        digits_only(b),
        digits_only(c),
        more.len() > 0 ==> more[0] == '.',
        forall|k: int|
            0 <= k < more.len() ==> '0' <= #[trigger] more[k] <= '9' || more[k] == '.',
        post.len() > 0 ==> !('0' <= post[0] <= '9') && post[0] != '.',
    ensures
        ({
            let build = build_of(pre + (a + seq!['.'] + b + seq!['.'] + c + more) + post);
            &&& parsed_u32(c) matches Some(n) ==> build == n
            &&& parsed_u32(c) is None ==> build == 0
        }),
        build_of(pre) == 0,
{
    let run = a + seq!['.'] + b + seq!['.'] + c + more;
    let rest = run + post;
    assert(pre + run + post == pre + rest);
    lemma_build_skips(pre, rest);
    assert forall|k: int| 0 <= k < run.len() implies version_char(#[trigger] rest[k]) by {
        let la = a.len() as int;
        let lb = b.len() as int;
        let lc = c.len() as int;
        if k < la {
            assert(rest[k] == a[k]);
        } else if k == la {
        } else if k < la + 1 + lb {
            assert(rest[k] == b[k - la - 1]);
        } else if k == la + 1 + lb {
        } else if k < la + lb + lc + 2 {
            assert(rest[k] == c[k - la - lb - 2]);
        } else {
            assert(rest[k] == more[k - la - lb - lc - 2]);
        }
    }
    if post.len() > 0 {
        assert(rest[run.len() as int] == post[0]);
    }
    lemma_is_version_run(rest, run.len() as int);
    assert(rest.take(run.len() as int) == run);
    lemma_digits_without_dot(a);
    lemma_digits_without_dot(b);
    lemma_digits_without_dot(c);
    lemma_third_part(a, b, c, more);
    lemma_no_build(pre);
}

/// An x64 Windows can have voice input from build 19045 on: where the first run of digits and
/// dots with two dots in the version line has a number as its third part, it is supported
/// exactly if the number is 19045 or more, however large. Another Windows cannot have it,
/// whatever its version.
pub proof fn law_windows_from_build_19045_on(
    version: String,
    arch: String,
    pre: Seq<char>,
    a: Seq<char>,
    b: Seq<char>,
    n: nat,
    more: Seq<char>,
    post: Seq<char>,
)
    requires
        trimmed(version@) == pre + (a + seq!['.'] + b + seq!['.'] + decimal(n) + more) + post,
        pre.len() > 0 ==> !('0' <= pre.last() <= '9') && pre.last() != '.',
        !two_dots_in_a_run(pre),
        digits_only(a),
        digits_only(b),
        n <= 0xffff_ffff,
        more.len() > 0 ==> more[0] == '.',
        forall|k: int|
            0 <= k < more.len() ==> '0' <= #[trigger] more[k] <= '9' || more[k] == '.',
        post.len() > 0 ==> !('0' <= post[0] <= '9') && post[0] != '.',
    ensures
        ({
            let facts = DeviceFacts::Windows { version: Some(version), arch };
            &&& voice_supported(facts) <==> arch@ == "x86_64"@ && n >= 19_045
            &&& arch@ == "x86_64"@ && n < 19_045 ==> refusal_reason(facts) == Some(
                "Voice Input requires Windows 10 22H2 or Windows 11."@,
            )
        }),
{
    let c = decimal(n);
    lemma_decimal_digits(n);
    law_number_read_back(n);
    assert forall|k: int| 0 <= k < c.len() implies '0' <= #[trigger] c[k] <= '9' by {
        assert(ascii_digit(c[k]));
    }
    law_windows_build(pre, a, b, c, more, post);
}

/// What a device can have goes by the numbers alone: where the major version, or the build, is
/// enough, and the processor fits, it is supported and no reason is given.
pub proof fn law_supported_by_number(version: String, arch: String)
    ensures
        voice_supported(DeviceFacts::MacOs { version: Some(version), arch }) <==> arch@
            == "aarch64"@ && major_of(trimmed(version@)) >= 12,
        voice_supported(DeviceFacts::Windows { version: Some(version), arch }) <==> arch@
            == "x86_64"@ && build_of(trimmed(version@)) >= 19_045,
{
}

/// A Windows whose version is unknown, or whose version line has no run of digits and dots with
/// two dots, is refused.
pub proof fn law_windows_without_build(version: Option<String>, arch: String)
    requires
        version matches Some(v) ==> !two_dots_in_a_run(trimmed(v@)),
    ensures
        !voice_supported(DeviceFacts::Windows { version, arch }),
        arch@ == "x86_64"@ ==> refusal_reason(DeviceFacts::Windows { version, arch }) == Some(
            "Voice Input requires Windows 10 22H2 or Windows 11."@,
        ),
{
    let line = version_text(opt_text(version), "Windows (unknown version)"@);
    if version is None {
        reveal_strlit("Windows (unknown version)");
        assert forall|i: int| 0 <= i < line.len() implies line[i] != '.' by {
        }
        assert(!two_dots_in_a_run(line));
    }
    lemma_no_build(line);
}

proof fn lemma_no_build(s: Seq<char>)
    requires
        !two_dots_in_a_run(s),
    ensures
        build_of(s) == 0,
    decreases s.len(),
{
    let n = version_run(s);
    lemma_version_run(s);
    let run = s.take(n);
    assert(!two_dots_in_a_run(run)) by {
        if two_dots_in_a_run(run) {
            let (i, j) = choose|i: int, j: int| #![trigger run[i], run[j]]
                0 <= i < j < run.len() && run[i] == '.' && run[j] == '.' && forall|k: int|
                    i < k < j ==> '0' <= #[trigger] run[k] <= '9' || run[k] == '.';
            assert(s[i] == '.' && s[j] == '.');
            assert forall|k: int| i < k < j implies '0' <= #[trigger] s[k] <= '9' || s[k] == '.' by {
                assert(s[k] == run[k]);
            }
        }
    }
    assert forall|k: int| 0 <= k < run.len() implies version_char(#[trigger] run[k]) by {
        assert(run[k] == s[k]);
    }
    lemma_no_third_part(run);
    if n < s.len() {
        let tail = s.skip(n + 1);
        assert(!two_dots_in_a_run(tail)) by {
            if two_dots_in_a_run(tail) {
                let (i, j) = choose|i: int, j: int| #![trigger tail[i], tail[j]]
                    0 <= i < j < tail.len() && tail[i] == '.' && tail[j] == '.' && forall|k: int|
                        i < k < j ==> '0' <= #[trigger] tail[k] <= '9' || tail[k] == '.';
                let d = n + 1;
                assert(s[i + d] == '.' && s[j + d] == '.');
                assert forall|k: int| i + d < k < j + d implies '0' <= #[trigger] s[k] <= '9'
                    || s[k] == '.' by {
                    assert(s[k] == tail[k - d]);
                }
            }
        }
        lemma_no_build(tail);
    }
}

/// A processor that cannot have voice input is the reason that is given, whatever the version.
/// Without a capture device, that is the reason.
pub proof fn law_refusals(version: Option<String>, arch: String)
    ensures
        arch@ != "aarch64"@ ==> refusal_reason(DeviceFacts::MacOs { version, arch }) == Some(
            "Voice Input currently requires an Apple Silicon Mac (M1 or newer)."@,
        ),
        arch@ != "x86_64"@ ==> refusal_reason(DeviceFacts::Windows { version, arch }) == Some(
            "Voice Input currently requires a 64-bit x64 Windows PC."@,
        ),
        refusal_reason(DeviceFacts::Unix { arch, microphone: None }) == Some(
            "No microphone was found. Connect one and reopen Settings."@,
        ),
{
}

/// What the settings show: the version without the white space around it, or that it is
/// unknown, and the processor; outside macOS and Windows the processor and the capture device.
pub proof fn law_summaries(version: String, arch: String, microphone: String)
    ensures
        arch@ == "aarch64"@ ==> device_summary(
            DeviceFacts::MacOs { version: Some(version), arch },
        ) == "macOS "@ + trimmed(version@) + " · "@ + "Apple Silicon"@,
        arch@ != "aarch64"@ ==> device_summary(
            DeviceFacts::MacOs { version: Some(version), arch },
        ) == "macOS "@ + trimmed(version@) + " · "@ + "Intel"@,
        arch@ == "aarch64"@ ==> device_summary(DeviceFacts::MacOs { version: None, arch })
            == "macOS "@ + "unknown version"@ + " · "@ + "Apple Silicon"@,
        arch@ != "aarch64"@ ==> device_summary(DeviceFacts::MacOs { version: None, arch })
            == "macOS "@ + "unknown version"@ + " · "@ + "Intel"@,
        device_summary(DeviceFacts::Windows { version: Some(version), arch }) == trimmed(version@)
            + " · x64"@,
        device_summary(DeviceFacts::Windows { version: None, arch })
            == "Windows (unknown version)"@ + " · x64"@,
        device_summary(DeviceFacts::Unix { arch, microphone: Some(microphone) }) == "Linux · "@
            + arch@ + " · "@ + microphone@,
        device_summary(DeviceFacts::Unix { arch, microphone: None }) == "Linux · "@ + arch@,
{
    assert("Linux · "@ + arch@ + (" · "@ + microphone@) == "Linux · "@ + arch@ + " · "@
        + microphone@);
    assert("Linux · "@ + arch@ + Seq::<char>::empty() == "Linux · "@ + arch@);
}

/// What is said of each task whose thread was lost.
pub proof fn law_lost_tasks()
    ensures
        lost_prefix(DictationTask::Start) == "Dictation failed to start: "@,
        lost_prefix(DictationTask::Stop) == "Dictation stopped unexpectedly: "@,
        lost_prefix(DictationTask::Download) == "Voice model download stopped unexpectedly: "@,
        lost_prefix(DictationTask::Verify) == "Voice model verification stopped unexpectedly: "@,
{
}

} // verus!
