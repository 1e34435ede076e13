use conanprotocol::comm::daemon::{cmd_action, connect_reply, retries_after_read, DaemonAction, READ_RETRIES};
use conanprotocol::comm::enums::{IPCCmd, IPCRes};
use conanprotocol::entities::database::chat::lists_chats_of;
use conanprotocol::entities::database::require_changed;
use conanprotocol::msg::PeerStatus;
use conanprotocol::tui::functions::Mode;
use conanprotocol::tui::keys::TuiState;
use conanprotocol::tui::matches::{Screen, Tab};

#[test]
fn tick_is_answered_at_once() {
    assert_eq!(cmd_action(IPCCmd::Tick), DaemonAction::Reply(IPCRes::Tock));
    assert_eq!(cmd_action(IPCCmd::StartServer), DaemonAction::StartServer);
    assert_eq!(
        cmd_action(IPCCmd::Connect("x.onion".to_string(), 80)),
        DaemonAction::Connect("x.onion".to_string(), 80)
    );
}

#[test]
fn connection_outcomes_are_answered() {
    assert_eq!(
        connect_reply("x.onion".to_string(), 80, Ok(PeerStatus::Connected)),
        IPCRes::Connected("x.onion".to_string(), 80)
    );
    assert_eq!(
        connect_reply("x.onion".to_string(), 80, Ok(PeerStatus::NotFound)),
        IPCRes::Error("URL not found.".to_string())
    );
    assert_eq!(
        connect_reply("x.onion".to_string(), 80, Err("bad address".to_string())),
        IPCRes::Error("bad address".to_string())
    );
}

fn state(screen: Screen) -> TuiState {
    TuiState {
        tab: Tab::NoTab,
        mode: Mode::Normal,
        active_screen: screen,
        running: true,
        contacts: vec![],
        selected: None,
        chat_buf: String::new(),
    }
}

fn loading() -> Screen {
    Screen::LoadingScreen { loading_text: "Connecting...".to_string() }
}

#[test]
fn server_started_ends_only_a_loading_screen() {
    let mut s = state(loading());
    assert_eq!(s.manage_ipc(IPCRes::ServerStarted), Some("Server Started.".to_string()));
    assert_eq!(s.active_screen, Screen::NoScreen);
    let input = Screen::PeerInputScreen { input: "a".to_string(), cursor_pos: 1 };
    let mut s = state(input.clone());
    assert_eq!(s.manage_ipc(IPCRes::ServerStarted), None);
    assert_eq!(s.active_screen, input);
}

#[test]
fn connected_ends_any_screen() {
    let mut s = state(Screen::PeerInputScreen { input: "a".to_string(), cursor_pos: 1 });
    assert_eq!(s.manage_ipc(IPCRes::Connected("a".to_string(), 80)), Some("Connected.".to_string()));
    assert_eq!(s.active_screen, Screen::NoScreen);
}

#[test]
fn errors_are_shown_and_end_a_loading_screen() {
    let mut s = state(loading());
    assert_eq!(s.manage_ipc(IPCRes::Error("no route".to_string())), Some("no route".to_string()));
    assert_eq!(s.active_screen, Screen::NoScreen);
    let mut s = state(Screen::NoScreen);
    assert_eq!(s.manage_ipc(IPCRes::Tock), None);
}

#[test]
fn statements_must_change_a_row() {
    assert_eq!(require_changed(1), Ok(()));
    assert_eq!(require_changed(0), Err("Nothing was inserted.".to_string()));
    assert!(!lists_chats_of(1));
    assert!(lists_chats_of(2));
}

#[test]
fn failed_reads_use_up_the_retries() {
    assert_eq!(retries_after_read(2, true), READ_RETRIES);
    assert_eq!(retries_after_read(READ_RETRIES, false), 4);
    assert_eq!(retries_after_read(1, false), 0);
    assert_eq!(retries_after_read(0, false), 0);
}
