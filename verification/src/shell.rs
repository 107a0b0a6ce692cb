//! The window, the tray, and the life of the sidecar.
use vstd::prelude::*;

use crate::platform::{in_chromeos, inside_chromeos, Platform};
use crate::server::{law_app_vars_win, server_args, server_vars};
use crate::text::{decimal, decimal_text, same_text};
use crate::token::{hex_char, is_token, launch_token, law_token_is_hex};

verus! {

/// The port that a server has where no free one could be found.
pub const DEFAULT_PORT: u16 = 8765;

/// The port for the server: the free one that the system gave, else the default.
pub fn free_port(given: Option<u16>) -> (r: u16)
    ensures
        r == match given {
            Some(port) => port,
            None => DEFAULT_PORT,
        },
{
    match given {
        Some(port) => port,
        None => DEFAULT_PORT,
    }
}

/// The address of the server for requests.
pub open spec fn http_address(port: u16) -> Seq<char> {
    "http://127.0.0.1:"@ + decimal(port as nat)
}

/// The address of the server for web sockets.
pub open spec fn ws_address(port: u16) -> Seq<char> {
    "ws://127.0.0.1:"@ + decimal(port as nat)
}

/// A character that stands in quotes as it is: a printable ASCII character, but for the quotes
/// and the backslash.
pub open spec fn plain_char(c: char) -> bool {
    ' ' <= c <= '~' && c != '"' && c != '\'' && c != '\\'
}

/// Text that stands in quotes as it is.
pub open spec fn plain_text(s: Seq<char>) -> bool {
    forall|i: int| 0 <= i < s.len() ==> plain_char(#[trigger] s[i])
}

/// What the `Debug` format of a `str` writes.
pub uninterp spec fn debug_text(s: Seq<char>) -> Seq<char>;

/// A text in quotes, with escapes where it needs them.
pub open spec fn quoted(s: Seq<char>) -> Seq<char> {
    if plain_text(s) {
        "\""@ + s + "\""@
    } else {
        debug_text(s)
    }
}

/// Writes a text with the `Debug` format of `str`. The claims: it depends on the text alone,
/// and a text of plain characters is written as it is, between double quotes. Which escapes
/// other characters get is left to the name `debug_text`.
#[verifier::external_body]
fn quote(s: &str) -> (r: String)
    ensures
        r@ == debug_text(s@),
        plain_text(s@) ==> r@ == "\""@ + s@ + "\""@,
{
    format!("{:?}", s)
}

/// The script that sets the page's globals to literals.
pub open spec fn script_text(
    http: Seq<char>,
    ws: Seq<char>,
    api_token: Seq<char>,
    os: Seq<char>,
) -> Seq<char> {
    "window.__COWORKER_HTTP__="@ + http + ";window.__COWORKER_WS__="@ + ws
        + ";window.__COWORKER_API_TOKEN__="@ + api_token + ";window.__OCW_PLATFORM__="@ + os
        + ";"@
}

/// The script that runs before the page loads: where the server is, the token that it wants,
/// and the operating system.
pub open spec fn page_script(port: u16, api_token: Seq<char>, os: Seq<char>) -> Seq<char> {
    script_text(
        quoted(http_address(port)),
        quoted(ws_address(port)),
        quoted(api_token),
        quoted(os),
    )
}

/// The addresses of the server, for requests and for web sockets.
pub fn server_addresses(port: u16) -> (r: (String, String))
    ensures
        r.0@ == http_address(port),
        r.1@ == ws_address(port),
{
    let number = decimal_text(port as u64);
    let mut http = "http://127.0.0.1:".to_owned();
    http.append(number.as_str());
    let mut ws = "ws://127.0.0.1:".to_owned();
    ws.append(number.as_str());
    (http, ws)
}

/// Makes the script that sets the page's globals to the given literals.
pub fn script_of_literals(http: &str, ws: &str, api_token: &str, os: &str) -> (r: String)
    ensures
        r@ == script_text(http@, ws@, api_token@, os@),
{
    let mut script = "window.__COWORKER_HTTP__=".to_owned();
    script.append(http);
    script.append(";window.__COWORKER_WS__=");
    script.append(ws);
    script.append(";window.__COWORKER_API_TOKEN__=");
    script.append(api_token);
    script.append(";window.__OCW_PLATFORM__=");
    script.append(os);
    script.append(";");
    script
}

/// Makes the script that runs before the page loads.
pub fn initialization_script(port: u16, api_token: &str, os: &str) -> (r: String)
    ensures
        r@ == page_script(port, api_token@, os@),
{
    let (http, ws) = server_addresses(port);
    script_of_literals(
        quote(http.as_str()).as_str(),
        quote(ws.as_str()).as_str(),
        quote(api_token).as_str(),
        quote(os).as_str(),
    )
}

/// What one launch of the app settles before its window is made.
pub struct Launch {
    /// The port of the server.
    pub port: u16,
    /// The token that the server wants.
    pub api_token: String,
    /// The script that tells both to the page.
    pub script: String,
}

/// Settles a launch: the port, by what the system gave; a new token; and the script that
/// hands both to the page. `os` is the name of the operating system. Like [`launch_token`], it
/// panics where the system has no random numbers to give.
pub fn prepare_launch(given: Option<u16>, os: &str) -> (r: Launch)
    ensures
        r.port == match given {
            Some(port) => port,
            None => DEFAULT_PORT,
        },
        is_token(r.api_token@),
        r.script@ == page_script(r.port, r.api_token@, os@),
{
    let port = free_port(given);
    let api_token = launch_token();
    let script = initialization_script(port, api_token.as_str(), os);
    Launch { port, api_token, script }
}

/// A number in decimal is plain text.
proof fn lemma_decimal_plain(n: nat)
    ensures
        plain_text(decimal(n)),
    decreases n,
{
    if n >= 10 {
        lemma_decimal_plain(n / 10);
        let init = decimal(n / 10);
        assert forall|i: int| 0 <= i < decimal(n).len() implies plain_char(
            #[trigger] decimal(n)[i],
        ) by {
            if i < init.len() {
                assert(decimal(n)[i] == init[i]);
            }
        }
    }
}

/// The page gets the addresses and the token of its launch as string literals that hold just
/// these: nothing in them needs an escape.
pub proof fn law_script_hands_over(port: u16, api_token: Seq<char>)
    requires
        is_token(api_token),
    ensures
        quoted(http_address(port)) == "\""@ + http_address(port) + "\""@,
        quoted(ws_address(port)) == "\""@ + ws_address(port) + "\""@,
        quoted(api_token) == "\""@ + api_token + "\""@,
{
    law_token_is_hex(api_token);
    assert forall|i: int| 0 <= i < api_token.len() implies plain_char(#[trigger] api_token[i]) by {
        assert(hex_char(api_token[i]));
    }
    let number = decimal(port as nat);
    lemma_decimal_plain(port as nat);
    reveal_strlit("http://127.0.0.1:");
    reveal_strlit("ws://127.0.0.1:");
    let http = http_address(port);
    assert forall|i: int| 0 <= i < http.len() implies plain_char(#[trigger] http[i]) by {
        if i >= 17 {
            assert(http[i] == number[i - 17]);
        }
    }
    let ws = ws_address(port);
    assert forall|i: int| 0 <= i < ws.len() implies plain_char(#[trigger] ws[i]) by {
        if i >= 15 {
            assert(ws[i] == number[i - 15]);
        }
    }
}

/// The page and the server of a launch meet: the page's addresses are made of the host and the
/// port that the server is started with, and the page's token is the one that the server is
/// given, whatever the rest of the server's environment.
pub proof fn law_page_reaches_server(
    port: u16,
    api_token: Seq<char>,
    os: Seq<char>,
    env: Map<Seq<char>, Seq<char>>,
    app_pid: u32,
)
    requires
        is_token(api_token),
    ensures
        ({
            let args = server_args(port);
            let address = args[1] + ":"@ + args[3];
            let vars = server_vars(env, app_pid, api_token);
            &&& args[0] == "--host"@ && args[2] == "--port"@
            &&& page_script(port, api_token, os) == script_text(
                "\""@ + ("http://"@ + address) + "\""@,
                "\""@ + ("ws://"@ + address) + "\""@,
                "\""@ + vars["COWORKER_API_TOKEN"@] + "\""@,
                quoted(os),
            )
        }),
{
    law_script_hands_over(port, api_token);
    law_app_vars_win(env, app_pid, api_token, "COWORKER_API_TOKEN"@);
    reveal_strlit("http://127.0.0.1:");
    reveal_strlit("ws://127.0.0.1:");
    reveal_strlit("http://");
    reveal_strlit("ws://");
    reveal_strlit("127.0.0.1");
    reveal_strlit(":");
    let address = "127.0.0.1"@ + ":"@ + decimal(port as nat);
    assert(http_address(port) == "http://"@ + address);
    assert(ws_address(port) == "ws://"@ + address);
}

/// The variable that turns the renderer off that stays blank on ChromeOS, and its value.
pub open spec fn renderer_switch() -> (Seq<char>, Seq<char>) {
    ("WEBKIT_DISABLE_DMABUF_RENDERER"@, "1"@)
}

/// The variable to set before the window is made, if one is: inside ChromeOS, unless the user
/// has set the variable themselves.
pub fn crostini_workaround(
    platform: Platform,
    already_set: bool,
    milestone_exists: bool,
    containers_dir_exists: bool,
) -> (r: Option<(String, String)>)
    ensures
        r is Some <==> !already_set && in_chromeos(
            platform,
            milestone_exists,
            containers_dir_exists,
        ),
        r matches Some((name, value)) ==> (name@, value@) == renderer_switch(),
{
    if !already_set && inside_chromeos(platform, milestone_exists, containers_dir_exists) {
        Some(("WEBKIT_DISABLE_DMABUF_RENDERER".to_owned(), "1".to_owned()))
    } else {
        None
    }
}

/// What the user can ask for in the tray's menu.
#[derive(Clone, Copy, PartialEq, Eq, Structural, Debug)]
pub enum TrayCommand {
    Open,
    Settings,
    Quit,
}

/// The identifier of a menu item.
pub open spec fn menu_id(command: TrayCommand) -> Seq<char> {
    match command {
        TrayCommand::Open => "open"@,
        TrayCommand::Settings => "settings"@,
        TrayCommand::Quit => "quit"@,
    }
}

/// The label of a menu item.
pub open spec fn menu_label(command: TrayCommand) -> Seq<char> {
    match command {
        TrayCommand::Open => "Open OpenWorker"@,
        TrayCommand::Settings => "Settings"@,
        TrayCommand::Quit => "Quit"@,
    }
}

/// The identifier and the label of a menu item.
pub fn tray_menu_item(command: TrayCommand) -> (r: (&'static str, &'static str))
    ensures
        r.0@ == menu_id(command),
        r.1@ == menu_label(command),
{
    match command {
        TrayCommand::Open => ("open", "Open OpenWorker"),
        TrayCommand::Settings => ("settings", "Settings"),
        TrayCommand::Quit => ("quit", "Quit"),
    }
}

/// The items of the tray's menu, from the top.
pub fn tray_menu() -> (r: Vec<TrayCommand>)
    ensures
        r@ == seq![TrayCommand::Open, TrayCommand::Settings, TrayCommand::Quit],
{
    let menu = vec![TrayCommand::Open, TrayCommand::Settings, TrayCommand::Quit];
    assert(menu@ == seq![TrayCommand::Open, TrayCommand::Settings, TrayCommand::Quit]);
    menu
}

/// The command that a menu identifier stands for, if it stands for one.
pub fn tray_command(id: &str) -> (r: Option<TrayCommand>)
    ensures
        forall|command: TrayCommand| r == Some(command) <==> id@ == #[trigger] menu_id(command),
{
    proof {
        assert forall|a: TrayCommand, b: TrayCommand| #[trigger]
            menu_id(a) == #[trigger] menu_id(b) implies a == b by {
            law_menu_ids_differ(a, b);
        }
        assert(menu_id(TrayCommand::Open) == "open"@);
        assert(menu_id(TrayCommand::Settings) == "settings"@);
        assert(menu_id(TrayCommand::Quit) == "quit"@);
    }
    if same_text(id, "open") {
        Some(TrayCommand::Open)
    } else if same_text(id, "settings") {
        Some(TrayCommand::Settings)
    } else if same_text(id, "quit") {
        Some(TrayCommand::Quit)
    } else {
        None
    }
}

/// No two menu items have the same identifier, so a click is one command.
pub proof fn law_menu_ids_differ(a: TrayCommand, b: TrayCommand)
    requires
        menu_id(a) == menu_id(b),
    ensures
        a == b,
{
    reveal_strlit("open");
    reveal_strlit("settings");
    reveal_strlit("quit");
    assert("open"@[0] == 'o');
    assert("settings"@[0] == 's');
    assert("quit"@[0] == 'q');
}

/// What happens to the app.
#[derive(Clone, Copy, PartialEq, Eq, Structural, Debug)]
pub enum ShellEvent {
    /// The server was started, or could not be.
    ServerStarted { ok: bool },
    /// The tray was made, or there is no place for one.
    TrayMade { ok: bool },
    /// The user closed the window.
    CloseRequested,
    /// The user chose from the tray's menu.
    Menu { command: TrayCommand },
    /// The user launched the app a second time.
    SecondLaunch,
    /// The app is asked to exit.
    ExitRequested,
    /// The app exits.
    Exit,
}

/// What the app does.
#[derive(Clone, Copy, PartialEq, Eq, Structural, Debug)]
pub enum ShellAction {
    /// Hide the window, and keep it from closing.
    HideWindow,
    /// Unminimize the window, show it and focus it.
    ShowWindow,
    /// Have the page open its settings.
    OpenSettings,
    /// Exit the app.
    ExitApp,
    /// Kill the server.
    KillServer,
    /// Release the hold that keeps the system awake, if there is one.
    ReleaseKeepAwake,
}

/// The state of the app.
pub struct Shell {
    /// Whether there is a tray to close to.
    has_tray: bool,
    /// Whether there is a server to kill.
    has_server: bool,
}

/// Whether the app has a tray, and a server.
pub struct ShellState {
    pub has_tray: bool,
    pub has_server: bool,
}

impl View for Shell {
    type V = ShellState;

    closed spec fn view(&self) -> ShellState {
        ShellState { has_tray: self.has_tray, has_server: self.has_server }
    }
}

/// The state after an event.
pub open spec fn shell_next(state: ShellState, event: ShellEvent) -> ShellState {
    match event {
        ShellEvent::ServerStarted { ok } => ShellState { has_server: ok, ..state },
        ShellEvent::TrayMade { ok } => ShellState { has_tray: ok, ..state },
        ShellEvent::ExitRequested | ShellEvent::Exit => ShellState { has_server: false, ..state },
        _ => state,
    }
}

/// What an event has the app do. Closing the window hides it where there is a tray to bring
/// it back from; else the close goes through. On the way out the server is killed, once, and
/// the system may sleep again.
pub open spec fn shell_actions(state: ShellState, event: ShellEvent) -> Seq<ShellAction> {
    match event {
        ShellEvent::ServerStarted { .. } | ShellEvent::TrayMade { .. } => seq![],
        ShellEvent::CloseRequested => if state.has_tray {
            seq![ShellAction::HideWindow]
        } else {
            seq![]
        },
        ShellEvent::Menu { command: TrayCommand::Open } => seq![ShellAction::ShowWindow],
        ShellEvent::Menu { command: TrayCommand::Settings } => seq![
            ShellAction::ShowWindow,
            ShellAction::OpenSettings,
        ],
        ShellEvent::Menu { command: TrayCommand::Quit } => seq![ShellAction::ExitApp],
        ShellEvent::SecondLaunch => seq![ShellAction::ShowWindow],
        ShellEvent::ExitRequested | ShellEvent::Exit => if state.has_server {
            seq![ShellAction::KillServer, ShellAction::ReleaseKeepAwake]
        } else {
            seq![ShellAction::ReleaseKeepAwake]
        },
    }
}

impl Shell {
    /// An app that has just been launched.
    pub fn new() -> (r: Shell)
        ensures
            !r@.has_tray,
            !r@.has_server,
    {
        Shell { has_tray: false, has_server: false }
    }

    /// Takes in an event; the result is what to do, in this order.
    pub fn handle(&mut self, event: ShellEvent) -> (r: Vec<ShellAction>)
        ensures
            final(self)@ == shell_next(old(self)@, event),
            r@ == shell_actions(old(self)@, event),
    {
        let mut actions: Vec<ShellAction> = Vec::new();
        match event {
            ShellEvent::ServerStarted { ok } => {
                self.has_server = ok;
            },
            ShellEvent::TrayMade { ok } => {
                self.has_tray = ok;
            },
            ShellEvent::CloseRequested => {
                if self.has_tray {
                    actions.push(ShellAction::HideWindow);
                }
            },
            ShellEvent::Menu { command } => match command {
                TrayCommand::Open => {
                    actions.push(ShellAction::ShowWindow);
                },
                TrayCommand::Settings => {
                    actions.push(ShellAction::ShowWindow);
                    actions.push(ShellAction::OpenSettings);
                },
                TrayCommand::Quit => {
                    actions.push(ShellAction::ExitApp);
                },
            },
            ShellEvent::SecondLaunch => {
                actions.push(ShellAction::ShowWindow);
            },
            ShellEvent::ExitRequested | ShellEvent::Exit => {
                if self.has_server {
                    actions.push(ShellAction::KillServer);
                }
                actions.push(ShellAction::ReleaseKeepAwake);
                self.has_server = false;
            },
        }
        assert(actions@ == shell_actions(old(self)@, event));
        actions
    }
}

/// The state after a run of events, from a given one.
pub open spec fn shell_run(state: ShellState, events: Seq<ShellEvent>) -> ShellState
    decreases events.len(),
{
    if events.len() == 0 {
        state
    } else {
        shell_next(shell_run(state, events.drop_last()), events.last())
    }
}

/// How often a run of events has the server killed.
pub open spec fn kills(state: ShellState, events: Seq<ShellEvent>) -> nat
    decreases events.len(),
{
    if events.len() == 0 {
        0
    } else {
        kills(state, events.drop_last()) + if shell_actions(
            shell_run(state, events.drop_last()),
            events.last(),
        ).contains(ShellAction::KillServer) {
            1nat
        } else {
            0nat
        }
    }
}

/// Whether an event is one of leaving the app.
pub open spec fn leaves(event: ShellEvent) -> bool {
    event is ExitRequested || event is Exit
}

/// The server outlives everything but the app: as long as no exit comes, a running server is
/// neither killed nor forgotten, whatever the user does with the window, the tray and the
/// launcher.
pub proof fn law_server_outlives_window(state: ShellState, events: Seq<ShellEvent>)
    requires
        state.has_server,
        forall|i: int|
            0 <= i < events.len() ==> !leaves(#[trigger] events[i])
                && !(events[i] is ServerStarted),
    ensures
        shell_run(state, events).has_server,
        kills(state, events) == 0,
    decreases events.len(),
{
    if events.len() > 0 {
        let init = events.drop_last();
        assert forall|i: int| 0 <= i < init.len() implies !leaves(#[trigger] init[i]) && !(
        init[i] is ServerStarted) by {
            assert(init[i] == events[i]);
        }
        law_server_outlives_window(state, init);
        assert(events.last() == events[events.len() - 1]);
        lemma_kill_only_on_leaving(shell_run(state, init), events.last());
    }
}

proof fn lemma_kill_only_on_leaving(state: ShellState, event: ShellEvent)
    ensures
        shell_actions(state, event).contains(ShellAction::KillServer) <==> leaves(event)
            && state.has_server,
{
    let actions = shell_actions(state, event);
    if leaves(event) && state.has_server {
        assert(actions[0] == ShellAction::KillServer);
    } else if actions.contains(ShellAction::KillServer) {
        let i = choose|i: int| 0 <= i < actions.len() && actions[i] == ShellAction::KillServer;
        assert(actions[i] == ShellAction::KillServer);
    }
}

/// No server is orphaned, and none is killed twice: once an exit has come, a server that ran
/// has been killed, and whatever exits follow, it has been killed exactly once.
pub proof fn law_server_killed_once(state: ShellState, events: Seq<ShellEvent>)
    requires
        state.has_server,
        exists|i: int| 0 <= i < events.len() && leaves(#[trigger] events[i]),
        forall|i: int| 0 <= i < events.len() ==> !((#[trigger] events[i]) is ServerStarted),
    ensures
        !shell_run(state, events).has_server,
        kills(state, events) == 1,
    decreases events.len(),
{
    let init = events.drop_last();
    assert forall|i: int| 0 <= i < init.len() implies !((#[trigger] init[i]) is ServerStarted) by {
        assert(init[i] == events[i]);
    }
    assert(events.last() == events[events.len() - 1]);
    lemma_kill_only_on_leaving(shell_run(state, init), events.last());
    if exists|i: int| 0 <= i < init.len() && leaves(#[trigger] init[i]) {
        law_server_killed_once(state, init);
    } else {
        assert forall|i: int| 0 <= i < init.len() implies !leaves(#[trigger] init[i]) && !(
        init[i] is ServerStarted) by {
            assert(init[i] == events[i]);
        }
        law_server_outlives_window(state, init);
        let i = choose|i: int| 0 <= i < events.len() && leaves(#[trigger] events[i]);
        if i < init.len() {
            assert(leaves(init[i]));
        }
    }
}

/// Closing the window hides it exactly if there is a tray to bring it back from: without one
/// the close goes through, and nobody is left with a server that they cannot reach.
pub proof fn law_close_needs_tray(state: ShellState)
    ensures
        shell_actions(state, ShellEvent::CloseRequested).contains(ShellAction::HideWindow)
            <==> state.has_tray,
{
    let actions = shell_actions(state, ShellEvent::CloseRequested);
    if state.has_tray {
        assert(actions[0] == ShellAction::HideWindow);
    }
}

/// What the page is told, to the letter: the server's addresses and its token, each as a string
/// literal under its own name, and the operating system.
pub proof fn law_script_to_the_letter(port: u16, api_token: Seq<char>, os: Seq<char>)
    requires
        is_token(api_token),
    ensures
        page_script(port, api_token, os) == "window.__COWORKER_HTTP__="@ + ("\""@ + (
        "http://127.0.0.1:"@ + decimal(port as nat)) + "\""@) + ";window.__COWORKER_WS__="@ + (
        "\""@ + ("ws://127.0.0.1:"@ + decimal(port as nat)) + "\""@)
            + ";window.__COWORKER_API_TOKEN__="@ + ("\""@ + api_token + "\""@)
            + ";window.__OCW_PLATFORM__="@ + quoted(os) + ";"@,
        plain_text(os) ==> quoted(os) == "\""@ + os + "\""@,
        !plain_text(os) ==> quoted(os) == debug_text(os),
{
    law_script_hands_over(port, api_token);
}

/// Whether a tray was made at this point of a run, and no other attempt at one came after it.
pub open spec fn tray_made_at(events: Seq<ShellEvent>, i: int) -> bool {
    &&& 0 <= i < events.len()
    &&& events[i] == (ShellEvent::TrayMade { ok: true })
    &&& forall|j: int| i < j < events.len() ==> !((#[trigger] events[j]) is TrayMade)
}

/// Whether the latest attempt at a tray made one.
pub open spec fn latest_tray_made(events: Seq<ShellEvent>) -> bool {
    exists|i: int| tray_made_at(events, i)
}

/// Whether a server was started at this point of a run, and neither another start nor an exit
/// came after it.
pub open spec fn server_runs_since(events: Seq<ShellEvent>, i: int) -> bool {
    &&& 0 <= i < events.len()
    &&& events[i] == (ShellEvent::ServerStarted { ok: true })
    &&& forall|j: int|
        i < j < events.len() ==> !((#[trigger] events[j]) is ServerStarted) && !(
        events[j] is ExitRequested) && !(events[j] is Exit)
}

/// Whether the latest start of a server succeeded, and no exit has come since.
pub open spec fn server_still_runs(events: Seq<ShellEvent>) -> bool {
    exists|i: int| server_runs_since(events, i)
}

/// The state of an app that has just been launched.
pub open spec fn just_launched() -> ShellState {
    ShellState { has_tray: false, has_server: false }
}

proof fn lemma_tray_stays(events: Seq<ShellEvent>, i: int)
    requires
        tray_made_at(events, i),
    ensures
        shell_run(just_launched(), events).has_tray,
    decreases events.len(),
{
    let init = events.drop_last();
    if i < init.len() {
        assert(!(events[events.len() - 1] is TrayMade));
        assert forall|j: int| i < j < init.len() implies !((#[trigger] init[j]) is TrayMade) by {
            assert(!(events[j] is TrayMade));
        }
        lemma_tray_stays(init, i);
    }
}

proof fn lemma_tray_was_made(events: Seq<ShellEvent>) -> (i: int)
    requires
        shell_run(just_launched(), events).has_tray,
    ensures
        tray_made_at(events, i),
    decreases events.len(),
{
    let init = events.drop_last();
    let n = events.len() - 1;
    if events[n] is TrayMade {
        n
    } else {
        let i = lemma_tray_was_made(init);
        assert forall|j: int| i < j < events.len() implies !((#[trigger] events[j]) is TrayMade) by {
            if j < n {
                assert(!(init[j] is TrayMade));
            }
        }
        i
    }
}

proof fn lemma_server_stays(events: Seq<ShellEvent>, i: int)
    requires
        server_runs_since(events, i),
    ensures
        shell_run(just_launched(), events).has_server,
    decreases events.len(),
{
    let init = events.drop_last();
    if i < init.len() {
        assert(!(events[events.len() - 1] is ServerStarted));
        assert forall|j: int| i < j < init.len() implies !((#[trigger] init[j]) is ServerStarted)
            && !(init[j] is ExitRequested) && !(init[j] is Exit) by {
            assert(!(events[j] is ServerStarted));
        }
        lemma_server_stays(init, i);
    }
}

proof fn lemma_server_was_started(events: Seq<ShellEvent>) -> (i: int)
    requires
        shell_run(just_launched(), events).has_server,
    ensures
        server_runs_since(events, i),
    decreases events.len(),
{
    let init = events.drop_last();
    let n = events.len() - 1;
    if events[n] is ServerStarted {
        n
    } else {
        let i = lemma_server_was_started(init);
        assert forall|j: int| i < j < events.len() implies !(
        (#[trigger] events[j]) is ServerStarted) && !(events[j] is ExitRequested) && !(
        events[j] is Exit) by {
            if j < n {
                assert(!(init[j] is ServerStarted));
            }
        }
        i
    }
}

/// Every close of the window hides it, and does nothing else, exactly if the latest attempt at
/// a tray made one, whatever else happened since: closes, menu commands, second launches and
/// exits do not take the tray away.
pub proof fn law_close_hides_by_tray(events: Seq<ShellEvent>)
    ensures
        shell_actions(shell_run(just_launched(), events), ShellEvent::CloseRequested)
            == if latest_tray_made(events) {
            seq![ShellAction::HideWindow]
        } else {
            seq![]
        },
{
    if latest_tray_made(events) {
        lemma_tray_stays(events, choose|i: int| tray_made_at(events, i));
    } else if shell_run(just_launched(), events).has_tray {
        let i = lemma_tray_was_made(events);
    }
}

/// Every way out kills the server, first, exactly if the latest start of one succeeded and no
/// exit has come since, and in any case lets the system sleep again; it does nothing else.
pub proof fn law_exit_by_server(events: Seq<ShellEvent>, exit: ShellEvent)
    requires
        exit is ExitRequested || exit is Exit,
    ensures
        shell_actions(shell_run(just_launched(), events), exit) == if server_still_runs(events) {
            seq![ShellAction::KillServer, ShellAction::ReleaseKeepAwake]
        } else {
            seq![ShellAction::ReleaseKeepAwake]
        },
{
    if server_still_runs(events) {
        lemma_server_stays(events, choose|i: int| server_runs_since(events, i));
    } else if shell_run(just_launched(), events).has_server {
        let i = lemma_server_was_started(events);
    }
}

/// What the user asks for is done, whatever the state of the app: the tray's menu and a second
/// launch bring the window back, the settings open in it, and quitting exits the app. That the
/// server was started or the tray was made calls for nothing.
pub proof fn law_requests_are_answered(state: ShellState, ok: bool)
    ensures
        shell_actions(state, ShellEvent::SecondLaunch) == seq![ShellAction::ShowWindow],
        shell_actions(state, ShellEvent::Menu { command: TrayCommand::Open }) == seq![
            ShellAction::ShowWindow,
        ],
        shell_actions(state, ShellEvent::Menu { command: TrayCommand::Settings }) == seq![
            ShellAction::ShowWindow,
            ShellAction::OpenSettings,
        ],
        shell_actions(state, ShellEvent::Menu { command: TrayCommand::Quit }) == seq![
            ShellAction::ExitApp,
        ],
        shell_actions(state, ShellEvent::ServerStarted { ok }).len() == 0,
        shell_actions(state, ShellEvent::TrayMade { ok }).len() == 0,
{
}

/// The names in the tray's menu, the renderer that ChromeOS needs off, and the port of a server
/// that is run by hand.
pub proof fn law_names()
    ensures
        menu_id(TrayCommand::Open) == "open"@,
        menu_label(TrayCommand::Open) == "Open OpenWorker"@,
        menu_id(TrayCommand::Settings) == "settings"@,
        menu_label(TrayCommand::Settings) == "Settings"@,
        menu_id(TrayCommand::Quit) == "quit"@,
        menu_label(TrayCommand::Quit) == "Quit"@,
        renderer_switch() == ("WEBKIT_DISABLE_DMABUF_RENDERER"@, "1"@),
        DEFAULT_PORT == 8765,
{
}

} // verus!
