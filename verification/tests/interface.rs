use conanprotocol::entities::database::peer::Peer;
use conanprotocol::tui::edit::{
    at_char_boundary, insert_at_cursor, remove_at, select_next, select_previous, text_len,
};
use conanprotocol::tui::functions::Mode;
use conanprotocol::tui::keys::{KeyAction, KeyInput, Keys, TuiState, CHAT_AMOUNT, CONNECT_PORT};
use conanprotocol::tui::matches::{get_key_event, get_tuicmd, Screen, Tab, TuiCommand};

fn peer(id: u32, name: &str, address: &str) -> Peer {
    let mut p = Peer::build(name, address);
    p.id = id;
    p
}

fn state() -> TuiState {
    TuiState {
        tab: Tab::Contact { list: Vec::new(), active: None },
        mode: Mode::Normal,
        active_screen: Screen::NoScreen,
        running: true,
        contacts: vec![peer(2, "alice", "alice.onion"), peer(3, "bob", "bob.onion")],
        selected: None,
        chat_buf: String::new(),
    }
}

fn press(s: &mut TuiState, key: KeyInput) -> Vec<KeyAction> {
    assert!(s.can_handle(key));
    s.handle_key(key)
}

#[test]
fn quit_stops_the_interface() {
    let mut s = state();
    assert!(press(&mut s, KeyInput::Char('q')).is_empty());
    assert!(!s.running);
}

#[test]
fn selection_wraps_around_the_contacts() {
    let mut s = state();
    assert_eq!(press(&mut s, KeyInput::Down), vec![KeyAction::UpdateChats]);
    assert_eq!(s.selected, Some(0));
    press(&mut s, KeyInput::Char('j'));
    assert_eq!(s.selected, Some(1));
    press(&mut s, KeyInput::Down);
    assert_eq!(s.selected, Some(0));
    press(&mut s, KeyInput::Up);
    assert_eq!(s.selected, Some(1));
    press(&mut s, KeyInput::Char('k'));
    assert_eq!(s.selected, Some(0));
}

#[test]
fn wrapping_needs_contacts() {
    let mut s = state();
    s.contacts.clear();
    s.selected = Some(0);
    assert!(!s.can_handle(KeyInput::Down));
    assert!(!s.can_handle(KeyInput::Up));
    assert!(s.can_handle(KeyInput::Char('q')));
}

#[test]
fn enter_on_a_contact_connects_and_asks_for_chats() {
    let mut s = state();
    s.selected = Some(1);
    let actions = press(&mut s, KeyInput::Enter);
    assert_eq!(
        actions,
        vec![
            KeyAction::Connect("bob.onion".to_string(), CONNECT_PORT),
            KeyAction::RequestChats { peer_id: 3, msg_amount: CHAT_AMOUNT },
        ]
    );
    assert_eq!(s.active_screen, Screen::LoadingScreen { loading_text: "Connecting...".to_string() });
}

#[test]
fn enter_without_selection_does_nothing() {
    let mut s = state();
    assert!(press(&mut s, KeyInput::Enter).is_empty());
    assert_eq!(s.active_screen, Screen::NoScreen);
}

#[test]
fn typing_and_sending_a_chat() {
    let mut s = state();
    s.selected = Some(0);
    press(&mut s, KeyInput::Tab);
    assert_eq!(s.tab, Tab::Chat);
    press(&mut s, KeyInput::Char('i'));
    assert_eq!(s.mode, Mode::Insert { cursor_pos: 0 });
    for ch in " hé".chars() {
        press(&mut s, KeyInput::Char(ch));
    }
    assert_eq!(s.chat_buf, " hé");
    // The cursor moves by one byte per key, so it now stands inside the last character.
    assert_eq!(s.mode, Mode::Insert { cursor_pos: 3 });
    assert!(!s.can_handle(KeyInput::Char('!')));
    press(&mut s, KeyInput::Esc);
    assert_eq!(s.mode, Mode::Normal);
    let actions = press(&mut s, KeyInput::Enter);
    assert_eq!(
        actions,
        vec![
            KeyAction::SendText(2, "hé".to_string()),
            KeyAction::ChatSent { text: " hé".to_string(), receiver: 2 },
        ]
    );
    assert_eq!(s.chat_buf, "");
}

#[test]
fn editing_keys_move_and_delete() {
    let mut s = state();
    s.tab = Tab::Chat;
    s.mode = Mode::Insert { cursor_pos: 0 };
    for ch in "abc".chars() {
        press(&mut s, KeyInput::Char(ch));
    }
    press(&mut s, KeyInput::Left);
    assert_eq!(s.mode, Mode::Insert { cursor_pos: 2 });
    press(&mut s, KeyInput::Backspace);
    assert_eq!(s.chat_buf, "ac");
    assert_eq!(s.mode, Mode::Insert { cursor_pos: 1 });
    press(&mut s, KeyInput::Delete);
    assert_eq!(s.chat_buf, "a");
    press(&mut s, KeyInput::Right);
    assert_eq!(s.mode, Mode::Insert { cursor_pos: 1 });
    press(&mut s, KeyInput::Left);
    press(&mut s, KeyInput::Left);
    assert_eq!(s.mode, Mode::Insert { cursor_pos: 0 });
    press(&mut s, KeyInput::Backspace);
    assert_eq!(s.chat_buf, "a");
}

#[test]
fn enter_in_insert_mode_adds_a_line() {
    let mut s = state();
    s.tab = Tab::Chat;
    s.selected = Some(0);
    s.mode = Mode::Insert { cursor_pos: 0 };
    press(&mut s, KeyInput::Char('x'));
    assert!(press(&mut s, KeyInput::Enter).is_empty());
    assert_eq!(s.chat_buf, "x\n");
    assert_eq!(s.mode, Mode::Insert { cursor_pos: 2 });
}

#[test]
fn cursor_inside_a_character_is_refused() {
    let mut s = state();
    s.tab = Tab::Chat;
    s.chat_buf = "é".to_string();
    s.mode = Mode::Insert { cursor_pos: 1 };
    assert!(!s.can_handle(KeyInput::Char('x')));
    assert!(!s.can_handle(KeyInput::Delete));
    assert!(s.can_handle(KeyInput::Esc));
}

#[test]
fn adding_a_peer_through_the_input_screen() {
    let mut s = state();
    press(&mut s, KeyInput::Char('a'));
    assert_eq!(s.active_screen, Screen::PeerInputScreen { input: String::new(), cursor_pos: 0 });
    for ch in "new.onion".chars() {
        press(&mut s, KeyInput::Char(ch));
    }
    press(&mut s, KeyInput::Left);
    press(&mut s, KeyInput::Delete);
    press(&mut s, KeyInput::Char('n'));
    let actions = press(&mut s, KeyInput::Enter);
    assert_eq!(actions, vec![KeyAction::Connect("new.onion".to_string(), CONNECT_PORT)]);
    assert_eq!(s.active_screen, Screen::LoadingScreen { loading_text: "Adding peer...".to_string() });
    // A loading screen ignores keys.
    assert!(press(&mut s, KeyInput::Char('q')).is_empty());
    assert!(s.running);
}

#[test]
fn escape_leaves_the_input_screen() {
    let mut s = state();
    press(&mut s, KeyInput::Char('a'));
    press(&mut s, KeyInput::Esc);
    assert_eq!(s.active_screen, Screen::NoScreen);
}

#[test]
fn confirm_screen_options_wrap() {
    let mut s = state();
    s.active_screen = Screen::ConfirmScreen {
        prompt: "Quit?".to_string(),
        options: vec!["Yes".to_string(), "No".to_string()],
        idx: 0,
    };
    press(&mut s, KeyInput::Left);
    assert!(matches!(s.active_screen, Screen::ConfirmScreen { idx: 1, .. }));
    press(&mut s, KeyInput::Right);
    assert!(matches!(s.active_screen, Screen::ConfirmScreen { idx: 0, .. }));
    press(&mut s, KeyInput::Right);
    assert!(matches!(s.active_screen, Screen::ConfirmScreen { idx: 1, .. }));
}

#[test]
fn keys_trait_handles_like_handle_key() {
    let mut s = state();
    assert!(s.manage_keys(KeyInput::Char('q')).is_empty());
    assert!(!s.running);
}

#[test]
fn text_editing_helpers() {
    let mut text = "hé".to_string();
    let mut cursor = 1usize;
    assert_eq!(text_len(&text), 3);
    assert!(at_char_boundary(&text, 1));
    assert!(!at_char_boundary(&text, 2));
    assert!(at_char_boundary(&text, 3));
    insert_at_cursor(&mut text, &mut cursor, 'ü');
    assert_eq!(text, "hüé");
    assert_eq!(cursor, 2);
    remove_at(&mut text, 1);
    assert_eq!(text, "hé");
    assert_eq!(select_next(None), Some(0));
    assert_eq!(select_next(Some(4)), Some(5));
    assert_eq!(select_previous(None), Some(usize::MAX));
    assert_eq!(select_previous(Some(4)), Some(3));
}

#[test]
fn q_is_the_quit_command() {
    assert_eq!(get_tuicmd(KeyInput::Char('q')), TuiCommand::Quit);
    assert_eq!(get_tuicmd(KeyInput::Char('w')), TuiCommand::Other(KeyInput::Char('w')));
    assert_eq!(get_key_event(TuiCommand::Quit), KeyInput::Char('q'));
    assert_eq!(get_key_event(TuiCommand::Other(KeyInput::Esc)), KeyInput::Esc);
}

#[test]
fn sent_text_is_trimmed_of_unicode_white_space() {
    let mut s = state();
    s.selected = Some(0);
    s.tab = Tab::Chat;
    s.chat_buf = "\u{3000} hé\t\u{85}\n".to_string();
    let actions = press(&mut s, KeyInput::Enter);
    assert_eq!(actions[0], KeyAction::SendText(2, "hé".to_string()));
    s.chat_buf = " \u{2003} ".to_string();
    let actions = press(&mut s, KeyInput::Enter);
    assert_eq!(actions[0], KeyAction::SendText(2, String::new()));
}
