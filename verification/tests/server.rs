use std::path::{Path, PathBuf};

use openworker_shell::env_map::EnvMap;
use openworker_shell::location::Location;
use openworker_shell::platform::Platform;
use openworker_shell::prefs::{
    desktop_prefs_path, keep_awake_member, models_dir, read_keep_awake_pref, state_dir,
    write_keep_awake_pref, StateEnv,
};
use openworker_shell::server::{
    server_bin, server_candidates, server_command, server_log_file, server_log_files,
    server_outputs, ExeDirs, LogStep, OutputSink, ServerRoots,
};

fn path<R: AsRef<Path>>(location: &Location<R>) -> PathBuf {
    let mut path = location.root.as_ref().to_path_buf();
    for part in &location.below {
        path.push(part);
    }
    path
}

fn roots<'a>(chosen: Option<&'a str>, resource_dir: Option<&'a str>, exe: Option<(&'a str, Option<&'a str>)>) -> ServerRoots<&'a Path> {
    ServerRoots {
        chosen: chosen.map(Path::new),
        resource_dir: resource_dir.map(Path::new),
        exe: exe.map(|(dir, above)| ExeDirs { dir: Path::new(dir), above: above.map(Path::new) }),
        source_dir: Path::new("/src/surfaces/gui/src-tauri"),
    }
}

/// The Linux layout: the binary in `/usr/bin`, its resources elsewhere. Only the resource
/// directory finds the server there.
#[test]
fn server_bin_prefers_the_resource_dir() {
    for (platform, name) in [
        (Platform::Linux, "openworker-server"),
        (Platform::MacOs, "openworker-server"),
        (Platform::OtherUnix, "openworker-server"),
        (Platform::Windows, "openworker-server.exe"),
    ] {
        let root = "/usr/lib/OpenWorker";
        let exe = Path::new(root).join("sidecar").join(name);
        let roots = roots(None, Some(root), Some(("/usr/bin", Some("/usr"))));
        let present: Vec<bool> =
            server_candidates(&roots, platform).iter().map(|c| path(c) == exe).collect();
        assert_eq!(path(&server_bin(&roots, platform, &present)), exe);
    }
}

/// A resource directory that holds no server does not win by existing.
#[test]
fn server_bin_falls_through_an_empty_resource_dir() {
    let roots = roots(None, Some("/tmp/ocw-empty"), Some(("/usr/bin", Some("/usr"))));
    let present = vec![false; server_candidates(&roots, Platform::Linux).len()];
    let resolved = path(&server_bin(&roots, Platform::Linux, &present));
    assert!(
        resolved.to_string_lossy().contains(".venv"),
        "expected the dev venv fallback, got {}",
        resolved.display()
    );
    assert_eq!(
        resolved,
        Path::new("/src/surfaces/gui/src-tauri/../../../.venv/bin/openworker-server")
    );
    let resolved = path(&server_bin(&roots, Platform::Windows, &Vec::new()));
    assert_eq!(
        resolved,
        Path::new("/src/surfaces/gui/src-tauri/../../../.venv/Scripts/openworker-server.exe")
    );
}

#[test]
fn the_chosen_server_wins() {
    let roots = roots(Some("/my/server"), Some("/res"), None);
    assert_eq!(
        path(&server_bin(&roots, Platform::Linux, &vec![true])),
        Path::new("/my/server")
    );
}

#[test]
fn servers_are_looked_for_in_order() {
    let all = roots(None, Some("/res"), Some(("/app/bin", Some("/app"))));
    let places: Vec<PathBuf> = server_candidates(&all, Platform::MacOs).iter().map(path).collect();
    let expected: Vec<PathBuf> = [
        "/res/sidecar/openworker-server",
        "/app/bin/sidecar/openworker-server",
        "/app/Resources/sidecar/openworker-server",
        "/app/bin/openworker-server",
    ]
    .iter()
    .map(PathBuf::from)
    .collect();
    assert_eq!(places, expected);
    for k in 0..4 {
        let present: Vec<bool> = (0..4).map(|i| i >= k).collect();
        assert_eq!(path(&server_bin(&all, Platform::MacOs, &present)), expected[k]);
    }
    let no_above = roots(None, None, Some(("/", None)));
    let places: Vec<PathBuf> =
        server_candidates(&no_above, Platform::MacOs).iter().map(path).collect();
    assert_eq!(
        places,
        vec![PathBuf::from("/sidecar/openworker-server"), PathBuf::from("/openworker-server")]
    );
    assert!(server_candidates(&roots(None, None, None), Platform::Linux).is_empty());
}

fn state(platform: Platform, state_dir: Option<&str>, appdata: Option<&str>, home: Option<&str>) -> StateEnv {
    StateEnv {
        platform,
        state_dir: state_dir.map(String::from),
        appdata: appdata.map(String::from),
        home: home.map(String::from),
    }
}

#[test]
fn the_state_directory_follows_the_environment() {
    let at = |env: &StateEnv| path(&state_dir(env));
    let all = (Some("/state"), Some("/appdata"), Some("/home/ada"));
    assert_eq!(at(&state(Platform::Windows, all.0, all.1, all.2)), Path::new("/state"));
    assert_eq!(at(&state(Platform::Linux, all.0, all.1, all.2)), Path::new("/state"));
    assert_eq!(
        at(&state(Platform::Windows, None, all.1, all.2)),
        Path::new("/appdata/coworker")
    );
    assert_eq!(
        at(&state(Platform::Windows, None, None, all.2)),
        Path::new("/home/ada/.config/coworker")
    );
    assert_eq!(
        at(&state(Platform::MacOs, None, all.1, all.2)),
        Path::new("/home/ada/.config/coworker")
    );
    assert_eq!(at(&state(Platform::Linux, None, None, None)), Path::new("./.config/coworker"));
    assert_eq!(at(&state(Platform::Linux, None, None, Some(""))), Path::new(".config/coworker"));
}

#[test]
fn files_of_the_state_directory() {
    let env = state(Platform::Linux, None, None, Some("/home/ada"));
    assert_eq!(
        path(&desktop_prefs_path(&env)),
        Path::new("/home/ada/.config/coworker/desktop.json")
    );
    assert_eq!(path(&models_dir(&env)), Path::new("/home/ada/.config/coworker/models"));
    let log = server_log_files(&env);
    assert_eq!(path(&log.dir), Path::new("/home/ada/.config/coworker/logs"));
    assert_eq!(
        path(&log.file),
        Path::new("/home/ada/.config/coworker/logs/openworker-server.log")
    );
    assert_eq!(
        path(&log.previous),
        Path::new("/home/ada/.config/coworker/logs/openworker-server.log.old")
    );
}

#[test]
fn the_keep_awake_preference_is_read_back() {
    let env = state(Platform::Linux, Some("/state"), None, None);
    for enabled in [true, false] {
        let write = write_keep_awake_pref(&env, enabled);
        assert_eq!(path(&write.path), Path::new("/state/desktop.json"));
        assert_eq!(read_keep_awake_pref(Some(&write.text)), enabled);
    }
    assert_eq!(write_keep_awake_pref(&env, true).text, "{\"keep_awake\":true}");
    assert_eq!(write_keep_awake_pref(&env, false).text, "{\"keep_awake\":false}");
}

#[test]
fn a_preference_that_is_not_there_is_off() {
    assert!(!read_keep_awake_pref(None));
    for text in [
        "",
        "not json",
        "{",
        "null",
        "true",
        "[true]",
        "{}",
        "{\"keep_awake\": null}",
        "{\"keep_awake\": \"true\"}",
        "{\"keep_awake\": 1}",
        "{\"other\": true}",
        "{\"keep_awake\": true} trailing",
        "{\"nested\": {\"keep_awake\": true}}",
    ] {
        assert!(!read_keep_awake_pref(Some(text)), "{text}");
    }
    assert!(read_keep_awake_pref(Some(" { \"a\": [1], \"keep_awake\" : true } ")));
    assert!(read_keep_awake_pref(Some("{\"keep_awake\": false, \"keep_awake\": true}")));
    assert!(read_keep_awake_pref(Some("{\"keep\\u005fawake\": true}")));
}

#[test]
fn parsed_preferences() {
    let member = |name: &str, value: Option<bool>| (name.to_string(), value);
    assert!(!keep_awake_member(&None));
    assert!(!keep_awake_member(&Some(vec![])));
    assert!(keep_awake_member(&Some(vec![member("a", None), member("keep_awake", Some(true))])));
    assert!(!keep_awake_member(&Some(vec![member("keep_awake", Some(false))])));
    assert!(!keep_awake_member(&Some(vec![member("keep_awake", None), member("b", Some(true))])));
}

fn open_log(answers: &[bool]) -> Vec<LogStep> {
    let mut steps = vec![LogStep::CreateDir];
    for ok in answers {
        steps.push(server_log_file(steps[steps.len() - 1], *ok));
    }
    steps
}

#[test]
fn the_previous_log_is_set_aside() {
    assert_eq!(
        open_log(&[true, true, true, true]),
        vec![LogStep::CreateDir, LogStep::LookForLog, LogStep::SetAside, LogStep::CreateLog, LogStep::Open]
    );
    assert_eq!(
        open_log(&[true, true, false, true]),
        vec![LogStep::CreateDir, LogStep::LookForLog, LogStep::SetAside, LogStep::CreateLog, LogStep::Open]
    );
    assert_eq!(open_log(&[true, false, true]), vec![LogStep::CreateDir, LogStep::LookForLog, LogStep::CreateLog, LogStep::Open]);
    assert_eq!(open_log(&[false]), vec![LogStep::CreateDir, LogStep::NoLog]);
    assert_eq!(open_log(&[true, false, false]), vec![LogStep::CreateDir, LogStep::LookForLog, LogStep::CreateLog, LogStep::NoLog]);
}

#[test]
fn opening_the_log_always_ends() {
    for bits in 0..16u32 {
        let answers: Vec<bool> = (0..4).map(|i| bits >> i & 1 == 1).collect();
        let last = *open_log(&answers).last().unwrap();
        assert!(last == LogStep::Open || last == LogStep::NoLog);
        assert_eq!(server_log_file(last, true), last);
        assert_eq!(server_log_file(last, false), last);
    }
}

#[test]
fn outputs_go_to_the_log_where_there_is_one() {
    assert_eq!(server_outputs(true, true), (OutputSink::Log, OutputSink::Log));
    assert_eq!(server_outputs(true, false), (OutputSink::Log, OutputSink::Null));
    assert_eq!(server_outputs(false, true), (OutputSink::Null, OutputSink::Null));
    assert_eq!(server_outputs(false, false), (OutputSink::Null, OutputSink::Null));
}

#[test]
fn the_apps_variables_win_over_a_profile() {
    let mut env = EnvMap::new();
    env.insert("COWORKER_API_TOKEN".to_string(), "stolen".to_string());
    env.insert("COWORKER_PARENT_PID".to_string(), "1".to_string());
    env.insert("KUBECONFIG".to_string(), "/k".to_string());
    let command = server_command(40123, env, 4242, "cafe");
    assert_eq!(command.args, vec!["--host", "127.0.0.1", "--port", "40123"]);
    assert_eq!(command.vars.get("COWORKER_API_TOKEN"), Some("cafe".to_string()));
    assert_eq!(command.vars.get("COWORKER_PARENT_PID"), Some("4242".to_string()));
    assert_eq!(command.vars.get("COWORKER_EXIT_WITH_PARENT"), Some("1".to_string()));
    assert_eq!(command.vars.get("KUBECONFIG"), Some("/k".to_string()));
    assert_eq!(command.vars.entries().len(), 4);
}
