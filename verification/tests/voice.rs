use openworker_shell::voice::{
    dictation_answer, macos_major, start_dictation, voice_input_compatibility, voice_input_status,
    windows_build, DeviceFacts, DictationStatus, DictationTask, TaskOutcome,
};

fn macos(version: Option<&str>, arch: &str) -> DeviceFacts {
    DeviceFacts::MacOs { version: version.map(String::from), arch: arch.to_string() }
}

fn windows(version: Option<&str>, arch: &str) -> DeviceFacts {
    DeviceFacts::Windows { version: version.map(String::from), arch: arch.to_string() }
}

fn unix(arch: &str, microphone: Option<&str>) -> DeviceFacts {
    DeviceFacts::Unix { arch: arch.to_string(), microphone: microphone.map(String::from) }
}

fn devices() -> Vec<DeviceFacts> {
    let mut all = vec![unix("x86_64", None), unix("", Some("")), unix("aarch64", Some("USB"))];
    for version in [None, Some(""), Some("11.7.10\n"), Some("12.0"), Some("15"), Some("+13.1"), Some("x.y")] {
        for arch in ["aarch64", "x86_64"] {
            all.push(macos(version, arch));
        }
    }
    for version in [
        None,
        Some(""),
        Some("\r\nMicrosoft Windows [Version 10.0.19044.1]\r\n"),
        Some("\r\nMicrosoft Windows [Version 10.0.19045.3803]\r\n"),
    ] {
        for arch in ["aarch64", "x86_64"] {
            all.push(windows(version, arch));
        }
    }
    all
}

/// The answer tracks the machine: a box with a capture device is supported, one without is
/// refused.
#[test]
fn linux_voice_support_tracks_the_actual_capture_device() {
    for microphone in [None, Some("HDA Intel PCH")] {
        let (supported, _summary, reason) =
            voice_input_compatibility(&unix("x86_64", microphone));
        assert_eq!(
            supported,
            microphone.is_some(),
            "Linux compatibility must reflect whether a capture device actually exists"
        );
        assert_eq!(reason.is_some(), !supported, "refusals explain themselves");
    }
}

/// Whatever a platform reports, the report has to be self-consistent.
#[test]
fn voice_input_compatibility_is_self_consistent() {
    for facts in devices() {
        let (supported, summary, reason) = voice_input_compatibility(&facts);
        assert!(!summary.is_empty(), "Settings shows this summary");
        if !supported {
            assert!(reason.is_some(), "an unsupported platform must say why");
        }
        assert_eq!(supported, reason.is_none());
        assert_eq!(start_dictation(&facts).err(), reason);
    }
}

#[test]
fn linux_reports() {
    assert_eq!(
        voice_input_compatibility(&unix("x86_64", Some("USB Mic"))),
        (true, "Linux · x86_64 · USB Mic".to_string(), None)
    );
    assert_eq!(
        voice_input_compatibility(&unix("aarch64", None)),
        (
            false,
            "Linux · aarch64".to_string(),
            Some("No microphone was found. Connect one and reopen Settings.".to_string())
        )
    );
}

#[test]
fn macos_reports() {
    assert_eq!(
        voice_input_compatibility(&macos(Some("14.2.1\n"), "aarch64")),
        (true, "macOS 14.2.1 · Apple Silicon".to_string(), None)
    );
    assert_eq!(
        voice_input_compatibility(&macos(Some("12"), "aarch64")),
        (true, "macOS 12 · Apple Silicon".to_string(), None)
    );
    let too_old = Some("Voice Input requires macOS 12 or newer.".to_string());
    assert_eq!(
        voice_input_compatibility(&macos(Some(" 11.7 "), "aarch64")),
        (false, "macOS 11.7 · Apple Silicon".to_string(), too_old.clone())
    );
    assert_eq!(
        voice_input_compatibility(&macos(None, "aarch64")),
        (false, "macOS unknown version · Apple Silicon".to_string(), too_old)
    );
    assert_eq!(
        voice_input_compatibility(&macos(Some("10.15.7"), "x86_64")),
        (
            false,
            "macOS 10.15.7 · Intel".to_string(),
            Some("Voice Input currently requires an Apple Silicon Mac (M1 or newer).".to_string())
        )
    );
}

#[test]
fn windows_reports() {
    let line = "\r\nMicrosoft Windows [Version 10.0.22631.2861]\r\n";
    assert_eq!(
        voice_input_compatibility(&windows(Some(line), "x86_64")),
        (true, "Microsoft Windows [Version 10.0.22631.2861] · x64".to_string(), None)
    );
    assert_eq!(
        voice_input_compatibility(&windows(Some("Version 10.0.19044.1"), "x86_64")),
        (
            false,
            "Version 10.0.19044.1 · x64".to_string(),
            Some("Voice Input requires Windows 10 22H2 or Windows 11.".to_string())
        )
    );
    assert_eq!(
        voice_input_compatibility(&windows(None, "aarch64")),
        (
            false,
            "Windows (unknown version) · x64".to_string(),
            Some("Voice Input currently requires a 64-bit x64 Windows PC.".to_string())
        )
    );
    assert!(voice_input_compatibility(&windows(Some("10.0.19045"), "x86_64")).0);
}

#[test]
fn version_numbers_are_found() {
    assert_eq!(macos_major("14.2.1"), 14);
    assert_eq!(macos_major("14"), 14);
    assert_eq!(macos_major(""), 0);
    assert_eq!(macos_major(".5"), 0);
    assert_eq!(macos_major("4294967296.1"), 0);
    for s in [
        "",
        "Windows 11",
        "10.0",
        "10.0.19045",
        "10.0.19045.3803",
        "v1.2 and 10.0.22000.1",
        "a1.2.3b4.5.6",
        "1..2",
        "...",
        "x 1.2.99999999999 y 3.4.5",
        "Version\u{a0}10.0.19045",
    ] {
        let expected = s
            .split(|c: char| !c.is_ascii_digit() && c != '.')
            .find(|part| part.matches('.').count() >= 2)
            .and_then(|part| part.split('.').nth(2))
            .and_then(|part| part.parse::<u32>().ok())
            .unwrap_or(0);
        assert_eq!(windows_build(s), expected, "{s:?}");
    }
    assert_eq!(windows_build("Microsoft Windows [Version 10.0.19045.3803]"), 19045);
}

#[test]
fn the_status_joins_the_engine_and_the_device() {
    let status = DictationStatus {
        recording: true,
        model_installed: true,
        model_verified: false,
        test_passed: true,
        download_in_progress: false,
        model_name: "base.en".to_string(),
        model_bytes: 147_964_211,
    };
    let shown = voice_input_status(status, &unix("x86_64", None));
    assert!(shown.recording && shown.model_installed && !shown.model_verified);
    assert!(shown.test_passed && !shown.download_in_progress);
    assert_eq!(shown.model_name, "base.en");
    assert_eq!(shown.model_bytes, 147_964_211);
    assert!(!shown.supported);
    assert_eq!(shown.device_summary, "Linux · x86_64");
    assert_eq!(
        shown.compatibility_reason.unwrap(),
        "No microphone was found. Connect one and reopen Settings."
    );
}

#[test]
fn commands_answer_by_what_became_of_their_task() {
    let done: TaskOutcome<u8> = TaskOutcome::Done(7);
    assert_eq!(dictation_answer(DictationTask::Start, done), Ok(7));
    let failed: TaskOutcome<u8> = TaskOutcome::Failed("no model".to_string());
    assert_eq!(dictation_answer(DictationTask::Stop, failed), Err("no model".to_string()));
    for (task, message) in [
        (DictationTask::Start, "Dictation failed to start: gone"),
        (DictationTask::Stop, "Dictation stopped unexpectedly: gone"),
        (DictationTask::Download, "Voice model download stopped unexpectedly: gone"),
        (DictationTask::Verify, "Voice model verification stopped unexpectedly: gone"),
    ] {
        let lost: TaskOutcome<u8> = TaskOutcome::Lost("gone".to_string());
        assert_eq!(dictation_answer(task, lost), Err(message.to_string()));
    }
}
