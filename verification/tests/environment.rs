use std::collections::BTreeMap;

use openworker_shell::env_map::EnvMap;
use openworker_shell::platform::Platform;
use openworker_shell::keep_awake::ChildStatus;
use openworker_shell::probe::{
    await_probe, parse_assignment, parse_probe_output, shell_probe, LaunchContext, ProbeEvent,
    ProbeOutcome, ProbeStep, PROBE_PAUSE_MS, PROBE_TIMEOUT_MS,
};
use openworker_shell::sidecar_env::{sidecar_env, tool_dir_candidates};

fn to_map(vars: &EnvMap) -> BTreeMap<String, String> {
    let map: BTreeMap<String, String> = vars.entries().iter().cloned().collect();
    assert_eq!(map.len(), vars.entries().len(), "each name stands once");
    map
}

fn map(pairs: &[(&str, &str)]) -> BTreeMap<String, String> {
    pairs.iter().map(|(k, v)| (k.to_string(), v.to_string())).collect()
}

fn strings(list: &[&str]) -> Vec<String> {
    list.iter().map(|s| s.to_string()).collect()
}

fn launch(platform: Platform, from_shell: bool, path: Option<&str>, home: Option<&str>) -> LaunchContext {
    LaunchContext {
        platform,
        from_shell,
        path: path.map(String::from),
        home: home.map(String::from),
    }
}

fn finished(text: &str) -> ProbeOutcome {
    ProbeOutcome::Finished(text.to_string())
}

#[test]
fn variables_are_set_replaced_and_removed() {
    let mut vars = EnvMap::new();
    assert_eq!(vars.get("A"), None);
    vars.insert("A".to_string(), "1".to_string());
    vars.insert("B".to_string(), "2".to_string());
    vars.insert("A".to_string(), "3".to_string());
    assert_eq!(to_map(&vars), map(&[("A", "3"), ("B", "2")]));
    assert_eq!(vars.get("A"), Some("3".to_string()));
    vars.remove("A");
    vars.remove("C");
    assert_eq!(to_map(&vars), map(&[("B", "2")]));
}

#[test]
fn assignments_need_a_name() {
    let set = |k: &str, v: &str| Some((k.to_string(), v.to_string()));
    assert_eq!(parse_assignment("A=b"), set("A", "b"));
    assert_eq!(parse_assignment("A="), set("A", ""));
    assert_eq!(parse_assignment("A=b=c d"), set("A", "b=c d"));
    assert_eq!(parse_assignment("=b"), None);
    assert_eq!(parse_assignment("no equals sign"), None);
    assert_eq!(parse_assignment("  if x = y"), None);
    assert_eq!(parse_assignment("a b=c"), None);
    assert_eq!(parse_assignment("a\u{a0}b=c"), None);
    assert_eq!(parse_assignment(""), None);
}

#[test]
fn only_what_stands_between_the_markers_is_read() {
    let text = "Welcome=back\nfortune: A=1\n__OCW_ENV_START__\nA=1\nB=two words\nA=3\n  continued=no\n__OCW_ENV_END__\nC=4\n";
    assert_eq!(to_map(&parse_probe_output(text)), map(&[("A", "3"), ("B", "two words")]));
}

#[test]
fn markers_may_have_white_space_after_them() {
    let text = "__OCW_ENV_START__ \r\nA=1\r\n__OCW_ENV_START__\nB=2\n__OCW_ENV_END__\t\nC=3";
    assert_eq!(to_map(&parse_probe_output(text)), map(&[("A", "1"), ("B", "2")]));
    let text = " __OCW_ENV_START__\nA=1\n";
    assert_eq!(to_map(&parse_probe_output(text)), map(&[]));
}

#[test]
fn an_end_marker_ends_the_reading_even_before_the_start() {
    let text = "__OCW_ENV_END__\n__OCW_ENV_START__\nA=1\n__OCW_ENV_END__\n";
    assert_eq!(to_map(&parse_probe_output(text)), map(&[]));
    assert_eq!(to_map(&parse_probe_output("A=1\nB=2\n")), map(&[]));
    assert_eq!(to_map(&parse_probe_output("__OCW_ENV_START__\nA=1")), map(&[("A", "1")]));
}

#[test]
fn what_env_prints_is_read_back() {
    let vars = [("PATH", "/a:/b"), ("EMPTY", ""), ("EQ", "a=b"), ("LANG", "de_DE.UTF-8 ")];
    let mut text = String::from("motd\n__OCW_ENV_START__\n");
    for (k, v) in vars {
        text.push_str(&format!("{k}={v}\n"));
    }
    text.push_str("__OCW_ENV_END__\nlogout\n");
    assert_eq!(to_map(&parse_probe_output(&text)), map(&vars));
}

#[test]
fn the_probe_is_an_interactive_login_shell() {
    let ctx = launch(Platform::Linux, false, None, None);
    let probe = shell_probe(&ctx, Some("/usr/bin/fish".to_string())).unwrap();
    assert_eq!(probe.shell, "/usr/bin/fish");
    assert_eq!(
        probe.args,
        vec!["-ilc", "echo __OCW_ENV_START__; env; echo __OCW_ENV_END__"]
    );
    assert_eq!(shell_probe(&ctx, None).unwrap().shell, "/bin/bash");
    let ctx = launch(Platform::OtherUnix, false, None, None);
    assert_eq!(shell_probe(&ctx, None).unwrap().shell, "/bin/bash");
    let ctx = launch(Platform::MacOs, false, None, None);
    assert_eq!(shell_probe(&ctx, None).unwrap().shell, "/bin/zsh");
}

#[test]
fn a_real_environment_is_left_alone() {
    for ctx in [
        launch(Platform::Linux, true, Some("/bin"), Some("/home/u")),
        launch(Platform::MacOs, true, None, None),
        launch(Platform::Windows, false, Some("C:\\"), None),
    ] {
        assert!(shell_probe(&ctx, None).is_none());
        let probe = finished("__OCW_ENV_START__\nA=1\n");
        assert!(tool_dir_candidates(&ctx, &probe).is_empty());
        assert_eq!(to_map(&sidecar_env(&ctx, &probe, &strings(&["/snap/bin"]))), map(&[]));
    }
}

#[test]
fn the_probe_wins_over_the_apps_own_variables() {
    let ctx = launch(Platform::MacOs, false, Some("/usr/bin:/bin"), Some("/Users/old"));
    let probe = finished(
        "__OCW_ENV_START__\nPATH=/opt/homebrew/bin::/usr/bin:\nHOME=/Users/ada\nSHLVL=1\nPWD=/\nOLDPWD=/x\n_=/usr/bin/env\nAWS_PROFILE=dev\n__OCW_ENV_END__\n",
    );
    let candidates = tool_dir_candidates(&ctx, &probe);
    assert_eq!(
        candidates,
        vec![
            "/opt/homebrew/bin",
            "/opt/homebrew/sbin",
            "/usr/local/bin",
            "/usr/local/sbin",
            "/opt/local/bin",
            "/home/linuxbrew/.linuxbrew/bin",
            "/snap/bin",
            "/Users/ada/.local/bin",
            "/Users/ada/.cargo/bin",
            "/Users/ada/go/bin",
            "/Users/ada/.deno/bin",
        ]
    );
    let existing = strings(&["/Users/ada/.cargo/bin", "/usr/local/bin", "/opt/homebrew/bin"]);
    assert_eq!(
        to_map(&sidecar_env(&ctx, &probe, &existing)),
        map(&[
            ("PATH", "/opt/homebrew/bin:/usr/bin:/usr/local/bin:/Users/ada/.cargo/bin"),
            ("HOME", "/Users/ada"),
            ("AWS_PROFILE", "dev"),
        ])
    );
}

#[test]
fn a_failed_probe_still_repairs_the_path() {
    let ctx = launch(Platform::Linux, false, Some("/usr/bin:/bin"), Some("/home/ada"));
    let existing = strings(&["/snap/bin", "/home/ada/.local/bin", "/elsewhere"]);
    for probe in [ProbeOutcome::NotStarted, ProbeOutcome::Hung, finished("garbage\n")] {
        assert_eq!(
            to_map(&sidecar_env(&ctx, &probe, &existing)),
            map(&[("PATH", "/usr/bin:/bin:/snap/bin:/home/ada/.local/bin")])
        );
    }
}

#[test]
fn without_a_home_no_tilde_gets_onto_the_path() {
    let ctx = launch(Platform::Linux, false, None, None);
    let probe = ProbeOutcome::NotStarted;
    let candidates = tool_dir_candidates(&ctx, &probe);
    assert_eq!(candidates.len(), 7);
    assert!(candidates.iter().all(|dir| dir.starts_with('/')));
    let existing = strings(&["~/.cargo/bin", "/.cargo/bin"]);
    assert_eq!(to_map(&sidecar_env(&ctx, &probe, &existing)), map(&[("PATH", "")]));
}

#[test]
fn repairing_a_repaired_path_changes_nothing() {
    let existing = strings(&["/snap/bin", "/usr/local/bin"]);
    let ctx = launch(Platform::Linux, false, Some("/b:/snap/bin:/a"), None);
    let once = sidecar_env(&ctx, &ProbeOutcome::Hung, &existing).get("PATH").unwrap();
    assert_eq!(once, "/b:/snap/bin:/a:/usr/local/bin");
    let ctx = launch(Platform::Linux, false, Some(&once), None);
    assert_eq!(sidecar_env(&ctx, &ProbeOutcome::Hung, &existing).get("PATH").unwrap(), once);
}

/// Awaits a shell that has printed all at one time and exits at another, on a clock that only
/// waiting moves; how long it took, and whether the shell was killed.
fn await_shell(prints_at_ms: u64, exits_at_ms: u64, look_fails: bool) -> (u64, bool) {
    let (mut now, mut killed) = (0, false);
    let mut step = ProbeStep::Listen;
    while step != ProbeStep::Over {
        let event = match step {
            ProbeStep::Listen => {
                now = prints_at_ms.min(PROBE_TIMEOUT_MS);
                ProbeEvent::Heard { ok: prints_at_ms < PROBE_TIMEOUT_MS }
            }
            ProbeStep::ReadClock => ProbeEvent::Clock { elapsed_ms: now },
            ProbeStep::Poll => ProbeEvent::Polled {
                status: if look_fails {
                    ChildStatus::Unknown
                } else if exits_at_ms <= now {
                    ChildStatus::Exited
                } else {
                    ChildStatus::Running
                },
            },
            ProbeStep::Pause => {
                now += PROBE_PAUSE_MS;
                ProbeEvent::Done
            }
            ProbeStep::Kill => {
                killed = true;
                ProbeEvent::Done
            }
            ProbeStep::Over => ProbeEvent::Done,
        };
        step = await_probe(step, event);
    }
    (now, killed)
}

#[test]
fn a_hanging_profile_never_blocks_the_launch() {
    assert_eq!(await_shell(120, 120, false), (120, false));
    assert_eq!(await_shell(120, 150, false), (150, false));
    assert_eq!(await_shell(u64::MAX, u64::MAX, false), (5000, true));
    assert_eq!(await_shell(120, u64::MAX, false), (5000, true), "it closed its output and hangs");
    assert_eq!(await_shell(120, u64::MAX, true), (120, true));
    assert_eq!(await_probe(ProbeStep::Over, ProbeEvent::Done), ProbeStep::Over);
    let heard = ProbeEvent::Heard { ok: true };
    assert_eq!(await_probe(ProbeStep::Kill, heard), ProbeStep::Kill);
}
