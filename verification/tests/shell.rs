use openworker_shell::platform::Platform;
use openworker_shell::shell::{
    crostini_workaround, free_port, initialization_script, prepare_launch, script_of_literals,
    server_addresses, tray_command, tray_menu, tray_menu_item, Shell, ShellAction, ShellEvent,
    TrayCommand, DEFAULT_PORT,
};
use openworker_shell::token::{launch_token, token_of};

#[test]
fn a_free_port_is_used_where_there_is_one() {
    assert_eq!(free_port(Some(40123)), 40123);
    assert_eq!(free_port(Some(0)), 0);
    assert_eq!(free_port(None), 8765);
    assert_eq!(DEFAULT_PORT, 8765);
}

#[test]
fn a_token_is_two_uuids_in_hex() {
    assert_eq!(
        token_of(0x0123_4567_89ab_4def_8123_4567_89ab_cdef, 0xff),
        "0123456789ab4def8123456789abcdef000000000000000000000000000000ff"
    );
    assert_eq!(token_of(0, u128::MAX), format!("{}{}", "0".repeat(32), "f".repeat(32)));
}

#[test]
fn tokens_have_the_shape_of_random_uuids() {
    let mut seen: Vec<String> = Vec::new();
    for _ in 0..64 {
        let token = launch_token();
        assert_eq!(token.len(), 64);
        assert!(token.chars().all(|c| c.is_ascii_digit() || ('a'..='f').contains(&c)));
        for half in [&token[..32], &token[32..]] {
            let id = uuid::Uuid::parse_str(half).unwrap();
            assert_eq!(id.get_version_num(), 4);
            assert_eq!(id.get_variant(), uuid::Variant::RFC4122);
            assert_eq!(&half[12..13], "4");
            assert!("89ab".contains(&half[16..17]));
        }
        assert!(!seen.contains(&token), "a token is drawn anew");
        seen.push(token);
    }
}

#[test]
fn the_page_is_told_where_the_server_is() {
    assert_eq!(
        server_addresses(40123),
        ("http://127.0.0.1:40123".to_string(), "ws://127.0.0.1:40123".to_string())
    );
    assert_eq!(
        initialization_script(8765, "cafe01", "linux"),
        "window.__COWORKER_HTTP__=\"http://127.0.0.1:8765\";\
         window.__COWORKER_WS__=\"ws://127.0.0.1:8765\";\
         window.__COWORKER_API_TOKEN__=\"cafe01\";\
         window.__OCW_PLATFORM__=\"linux\";"
    );
    assert_eq!(
        script_of_literals("1", "2", "3", "4"),
        "window.__COWORKER_HTTP__=1;window.__COWORKER_WS__=2;window.__COWORKER_API_TOKEN__=3;window.__OCW_PLATFORM__=4;"
    );
}

#[test]
fn literals_are_escaped_where_they_need_it() {
    let script = initialization_script(1, "a\"b\\c\n", "it's ~ fine");
    assert!(script.contains("window.__COWORKER_API_TOKEN__=\"a\\\"b\\\\c\\n\";"));
    assert!(script.contains("window.__OCW_PLATFORM__=\"it's ~ fine\";"));
    let plain: String = (' '..='~').filter(|c| *c != '"' && *c != '\\').collect();
    assert!(initialization_script(1, &plain, "").contains(&format!("=\"{plain}\";")));
}

#[test]
fn a_launch_hands_its_token_to_the_page() {
    let launch = prepare_launch(Some(50001), "macos");
    assert_eq!(launch.port, 50001);
    assert_eq!(launch.api_token.len(), 64);
    assert_eq!(launch.script, initialization_script(50001, &launch.api_token, "macos"));
    assert!(launch.script.contains(&format!("=\"{}\";", launch.api_token)));
    assert_eq!(prepare_launch(None, "linux").port, 8765);
    assert_ne!(prepare_launch(None, "linux").api_token, launch.api_token);
}

#[test]
fn chromeos_gets_the_older_renderer() {
    let switch = Some(("WEBKIT_DISABLE_DMABUF_RENDERER".to_string(), "1".to_string()));
    assert_eq!(crostini_workaround(Platform::Linux, false, true, false), switch);
    assert_eq!(crostini_workaround(Platform::Linux, false, false, true), switch);
    assert_eq!(crostini_workaround(Platform::Linux, false, true, true), switch);
    assert_eq!(crostini_workaround(Platform::Linux, false, false, false), None);
    assert_eq!(crostini_workaround(Platform::Linux, true, true, true), None);
    for platform in [Platform::MacOs, Platform::Windows, Platform::OtherUnix] {
        assert_eq!(crostini_workaround(platform, false, true, true), None);
    }
}

#[test]
fn the_menu_is_answered() {
    let items: Vec<(&str, &str)> = tray_menu().into_iter().map(tray_menu_item).collect();
    assert_eq!(
        items,
        vec![("open", "Open OpenWorker"), ("settings", "Settings"), ("quit", "Quit")]
    );
    for command in tray_menu() {
        assert_eq!(tray_command(tray_menu_item(command).0), Some(command));
    }
    assert_eq!(tray_command("Quit"), None);
    assert_eq!(tray_command(""), None);
}

fn running(tray: bool) -> Shell {
    let mut shell = Shell::new();
    assert!(shell.handle(ShellEvent::ServerStarted { ok: true }).is_empty());
    assert!(shell.handle(ShellEvent::TrayMade { ok: tray }).is_empty());
    shell
}

#[test]
fn closing_hides_only_where_there_is_a_tray() {
    assert_eq!(running(true).handle(ShellEvent::CloseRequested), vec![ShellAction::HideWindow]);
    assert!(running(false).handle(ShellEvent::CloseRequested).is_empty());
    assert!(Shell::new().handle(ShellEvent::CloseRequested).is_empty());
}

#[test]
fn the_tray_and_a_second_launch_bring_the_window_back() {
    let mut shell = running(true);
    let menu = |command| ShellEvent::Menu { command };
    assert_eq!(shell.handle(menu(TrayCommand::Open)), vec![ShellAction::ShowWindow]);
    assert_eq!(
        shell.handle(menu(TrayCommand::Settings)),
        vec![ShellAction::ShowWindow, ShellAction::OpenSettings]
    );
    assert_eq!(shell.handle(menu(TrayCommand::Quit)), vec![ShellAction::ExitApp]);
    assert_eq!(shell.handle(ShellEvent::SecondLaunch), vec![ShellAction::ShowWindow]);
}

#[test]
fn the_server_is_killed_once_on_the_way_out() {
    let mut shell = running(true);
    for event in [
        ShellEvent::CloseRequested,
        ShellEvent::Menu { command: TrayCommand::Open },
        ShellEvent::SecondLaunch,
        ShellEvent::Menu { command: TrayCommand::Quit },
    ] {
        assert!(!shell.handle(event).contains(&ShellAction::KillServer));
    }
    assert_eq!(
        shell.handle(ShellEvent::ExitRequested),
        vec![ShellAction::KillServer, ShellAction::ReleaseKeepAwake]
    );
    assert_eq!(shell.handle(ShellEvent::Exit), vec![ShellAction::ReleaseKeepAwake]);

    let mut shell = running(false);
    assert_eq!(
        shell.handle(ShellEvent::Exit),
        vec![ShellAction::KillServer, ShellAction::ReleaseKeepAwake]
    );

    let mut shell = Shell::new();
    shell.handle(ShellEvent::ServerStarted { ok: false });
    assert_eq!(shell.handle(ShellEvent::ExitRequested), vec![ShellAction::ReleaseKeepAwake]);
}
