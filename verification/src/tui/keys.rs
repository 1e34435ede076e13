//! How a key press changes the terminal interface, and what it asks the daemon for.
use vstd::prelude::*;
use vstd::string::StrSliceExecFns;

use vstd::utf8::is_char_boundary;

use crate::entities::database::peer::{Peer, PeerView};
use crate::tui::edit::{
    at_char_boundary, insert_at_cursor, lemma_inserted_bytes, lemma_removed_bytes, next_selection, option_left, option_right,
    previous_selection, remove_at, select_next, select_previous, text_bytes, text_inserted,
    text_len, text_removed,
};
use crate::tui::functions::Mode;
use crate::tui::matches::{Screen, ScreenView, Tab, TabView, texts_view};

verus! {

/// A key press.
#[derive(Debug, Clone, Copy, PartialEq, Eq)]
pub enum KeyInput {
    Tab,
    Char(char),
    Backspace,
    Delete,
    Enter,
    Left,
    Right,
    Up,
    Down,
    Esc,
    Other,
}

/// What a key press asks of the daemon or of the chat list.
#[derive(Debug, Clone, PartialEq, Eq)]
pub enum KeyAction {
    /// Connect to the peer at this address and port.
    Connect(String, u16),
    /// Send the latest chat messages with a peer.
    RequestChats { peer_id: u8, msg_amount: u8 },
    /// Send this text to a peer.
    SendText(u8, String),
    /// The local user sent this text to the peer with this id.
    ChatSent { text: String, receiver: u32 },
    /// Refresh the chats of the selected contact.
    UpdateChats,
}

/// An action as plain values.
pub enum KeyActionView {
    Connect(Seq<char>, u16),
    RequestChats(u8, u8),
    SendText(u8, Seq<char>),
    ChatSent(Seq<char>, u32),
    UpdateChats,
}

impl View for KeyAction {
    type V = KeyActionView;

    open spec fn view(&self) -> KeyActionView {
        match self {
            KeyAction::Connect(addr, port) => KeyActionView::Connect(addr@, *port),
            KeyAction::RequestChats { peer_id, msg_amount } => KeyActionView::RequestChats(*peer_id, *msg_amount),
            KeyAction::SendText(id, text) => KeyActionView::SendText(*id, text@),
            KeyAction::ChatSent { text, receiver } => KeyActionView::ChatSent(text@, *receiver),
            KeyAction::UpdateChats => KeyActionView::UpdateChats,
        }
    }
}

pub open spec fn actions_view(v: Vec<KeyAction>) -> Seq<KeyActionView> {
    v@.map_values(|a: KeyAction| a@)
}

/// The interface state that key presses read and change.
pub struct TuiState {
    pub tab: Tab,
    pub mode: Mode,
    pub active_screen: Screen,
    pub running: bool,
    pub contacts: Vec<Peer>,
    pub selected: Option<usize>,
    pub chat_buf: String,
}

/// The interface state as plain values.
pub struct TuiView {
    pub tab: TabView,
    pub mode: Mode,
    pub screen: ScreenView,
    pub running: bool,
    pub contacts: Seq<PeerView>,
    pub selected: Option<usize>,
    pub chat_buf: Seq<char>,
}

impl View for TuiState {
    type V = TuiView;

    open spec fn view(&self) -> TuiView {
        TuiView {
            tab: self.tab@,
            mode: self.mode,
            screen: self.active_screen@,
            running: self.running,
            contacts: self.contacts@.map_values(|p: Peer| p@),
            selected: self.selected,
            chat_buf: self.chat_buf@,
        }
    }
}

/// Port the interface connects to.
pub const CONNECT_PORT: u16 = 80;

/// How many chat messages the interface asks for.
pub const CHAT_AMOUNT: u8 = 50;

pub open spec fn connecting_text() -> Seq<char> {
    seq!['C', 'o', 'n', 'n', 'e', 'c', 't', 'i', 'n', 'g', '.', '.', '.']
}

pub open spec fn adding_peer_text() -> Seq<char> {
    seq!['A', 'd', 'd', 'i', 'n', 'g', ' ', 'p', 'e', 'e', 'r', '.', '.', '.']
}

/// Whether a character is white space: it has the Unicode `White_Space` property.
pub open spec fn is_white_space(c: char) -> bool {
    let u = c as u32;
    ||| 0x09 <= u <= 0x0d
    ||| u == 0x20
    ||| u == 0x85
    ||| u == 0xa0
    ||| u == 0x1680
    ||| 0x2000 <= u <= 0x200a
    ||| u == 0x2028
    ||| u == 0x2029
    ||| u == 0x202f
    ||| u == 0x205f
    ||| u == 0x3000
}

/// The number of white-space characters at the start of a text.
pub open spec fn leading_white(s: Seq<char>) -> nat
    decreases s.len(),
{
    if s.len() > 0 && is_white_space(s[0]) {
        1 + leading_white(s.drop_first())
    } else {
        0
    }
}

/// The number of white-space characters at the end of a text.
pub open spec fn trailing_white(s: Seq<char>) -> nat
    decreases s.len(),
{
    if s.len() > 0 && is_white_space(s.last()) {
        1 + trailing_white(s.drop_last())
    } else {
        0
    }
}

/// The text with the white space at both ends removed.
pub open spec fn trimmed(s: Seq<char>) -> Seq<char> {
    let rest = s.skip(leading_white(s) as int);
    rest.take(rest.len() - trailing_white(rest))
}

proof fn lemma_leading_white(s: Seq<char>, i: int)
    requires
        0 <= i <= s.len(),
        forall|k: int| 0 <= k < i ==> is_white_space(#[trigger] s[k]),
        i == s.len() || !is_white_space(s[i]),
    ensures
        leading_white(s) == i,
    decreases i,
{
    if i > 0 {
        let t = s.drop_first();
        assert forall|k: int| 0 <= k < i - 1 implies is_white_space(#[trigger] t[k]) by {
            assert(t[k] == s[k + 1]);
        }
        if i < s.len() {
            assert(t[i - 1] == s[i]);
        }
        lemma_leading_white(t, i - 1);
    }
}

proof fn lemma_trailing_white(s: Seq<char>, t: int)
    requires
        0 <= t <= s.len(),
        forall|k: int| s.len() - t <= k < s.len() ==> is_white_space(#[trigger] s[k]),
        t == s.len() || !is_white_space(s[s.len() - 1 - t]),
    ensures
        trailing_white(s) == t,
    decreases t,
{
    if t > 0 {
        let u = s.drop_last();
        assert forall|k: int| u.len() - (t - 1) <= k < u.len() implies is_white_space(#[trigger] u[k]) by {
            assert(u[k] == s[k]);
        }
        if t < s.len() {
            assert(u[u.len() - 1 - (t - 1)] == s[s.len() - 1 - t]);
        }
        lemma_trailing_white(u, t - 1);
    }
}

fn white_space(c: char) -> (b: bool)
    ensures
        b == is_white_space(c),
{
    let u = c as u32;
    (0x09 <= u && u <= 0x0d) || u == 0x20 || u == 0x85 || u == 0xa0 || u == 0x1680 || (0x2000 <= u
        && u <= 0x200a) || u == 0x2028 || u == 0x2029 || u == 0x202f || u == 0x205f || u == 0x3000
}

/// The text without the white space at its ends, as `str::trim` gives it.
fn trim_text(s: &String) -> (t: String)
    ensures
        t@ == trimmed(s@),
{
    let st = s.as_str();
    let n = st.unicode_len();
    let mut i: usize = 0;
    while i < n && white_space(st.get_char(i))
        invariant
            i <= n,
            n == s@.len(),
            st@ == s@,
            forall|k: int| 0 <= k < i ==> is_white_space(#[trigger] s@[k]),
        decreases n - i,
    {
        i = i + 1;
    }
    proof {
        lemma_leading_white(s@, i as int);
    }
    let mut j: usize = n;
    while j > i && white_space(st.get_char(j - 1))
        invariant
            i <= j <= n,
            n == s@.len(),
            st@ == s@,
            forall|k: int| j <= k < n ==> is_white_space(#[trigger] s@[k]),
        decreases j - i,
    {
        j = j - 1;
    }
    let ghost rest = s@.skip(i as int);
    proof {
        assert forall|k: int| rest.len() - (n - j) <= k < rest.len() implies is_white_space(#[trigger] rest[k]) by {
            assert(rest[k] == s@[i + k]);
        }
        if j > i {
            assert(rest[rest.len() - 1 - (n - j)] == s@[j - 1]);
        }
        lemma_trailing_white(rest, (n - j) as int);
    }
    let sub = st.substring_char(i, j);
    assert(sub@ =~= trimmed(s@));
    sub.to_owned()
}

/// The pane after the focus moves on: from the contacts to the chat, and otherwise to the
/// contacts.
pub open spec fn next_tab(t: TabView) -> TabView {
    match t {
        TabView::Contact(_, _) => TabView::Chat,
        _ => TabView::Contact(Seq::empty(), None),
    }
}

/// The selected contact's id and address, if a contact is selected.
pub open spec fn target(v: TuiView) -> Option<(u32, Seq<char>)> {
    match v.selected {
        Some(i) => if i < v.contacts.len() {
            Some((v.contacts[i as int].id, v.contacts[i as int].address))
        } else {
            None
        },
        None => None,
    }
}

/// A key press on the main screen.
pub open spec fn main_key_step(v: TuiView, key: KeyInput) -> (TuiView, Seq<KeyActionView>) {
    match key {
        KeyInput::Tab => (TuiView { tab: next_tab(v.tab), ..v }, seq![]),
        KeyInput::Char(ch) if v.mode is Insert => {
            let c = v.mode->cursor_pos;
            (
                TuiView {
                    chat_buf: text_inserted(v.chat_buf, c as int, ch),
                    mode: Mode::Insert { cursor_pos: (c + 1) as usize },
                    ..v
                },
                seq![],
            )
        },
        KeyInput::Char('a') => (TuiView { screen: ScreenView::PeerInputScreen(Seq::empty(), 0), ..v }, seq![]),
        KeyInput::Char('i') => (
            if v.mode is Normal && v.tab is Chat {
                TuiView { mode: Mode::Insert { cursor_pos: 0 }, ..v }
            } else {
                v
            },
            seq![],
        ),
        KeyInput::Char('j') | KeyInput::Down => (
            if v.tab is Contact {
                TuiView {
                    selected: if v.selected is Some && v.selected->0 == v.contacts.len() - 1 {
                        Some(0)
                    } else {
                        next_selection(v.selected)
                    },
                    ..v
                }
            } else {
                v
            },
            seq![KeyActionView::UpdateChats],
        ),
        KeyInput::Char('k') | KeyInput::Up => (
            if v.tab is Contact {
                TuiView {
                    selected: if v.selected == Some(0usize) {
                        Some((v.contacts.len() - 1) as usize)
                    } else {
                        previous_selection(v.selected)
                    },
                    ..v
                }
            } else {
                v
            },
            seq![KeyActionView::UpdateChats],
        ),
        KeyInput::Char('q') => (TuiView { running: false, ..v }, seq![]),
        KeyInput::Backspace => (
            match v.mode {
                Mode::Insert { cursor_pos: c } => if c > 0 {
                    TuiView {
                        mode: Mode::Insert { cursor_pos: (c - 1) as usize },
                        chat_buf: text_removed(v.chat_buf, c - 1),
                        ..v
                    }
                } else {
                    v
                },
                Mode::Normal => v,
            },
            seq![],
        ),
        KeyInput::Delete => (
            match v.mode {
                Mode::Insert { cursor_pos: c } => if c < text_bytes(v.chat_buf).len() {
                    TuiView { chat_buf: text_removed(v.chat_buf, c as int), ..v }
                } else {
                    v
                },
                Mode::Normal => v,
            },
            seq![],
        ),
        KeyInput::Enter => match target(v) {
            None => (v, seq![]),
            Some((id, addr)) => match v.tab {
                TabView::Contact(_, _) => (
                    TuiView { screen: ScreenView::LoadingScreen(connecting_text()), ..v },
                    seq![
                        KeyActionView::Connect(addr, CONNECT_PORT),
                        KeyActionView::RequestChats(id as u8, CHAT_AMOUNT),
                    ],
                ),
                TabView::Chat => match v.mode {
                    Mode::Normal => (
                        TuiView { chat_buf: Seq::empty(), ..v },
                        seq![
                            KeyActionView::SendText(id as u8, trimmed(v.chat_buf)),
                            KeyActionView::ChatSent(v.chat_buf, id),
                        ],
                    ),
                    Mode::Insert { cursor_pos: c } => (
                        TuiView {
                            chat_buf: text_inserted(v.chat_buf, c as int, '\n'),
                            mode: Mode::Insert { cursor_pos: (c + 1) as usize },
                            ..v
                        },
                        seq![],
                    ),
                },
                TabView::NoTab => (v, seq![]),
            },
        },
        KeyInput::Left => (
            match v.mode {
                Mode::Insert { cursor_pos: c } => if c > 0 {
                    TuiView { mode: Mode::Insert { cursor_pos: (c - 1) as usize }, ..v }
                } else {
                    v
                },
                Mode::Normal => v,
            },
            seq![],
        ),
        KeyInput::Right => (
            match v.mode {
                Mode::Insert { cursor_pos: c } => if text_bytes(v.chat_buf).len() > c {
                    TuiView { mode: Mode::Insert { cursor_pos: (c + 1) as usize }, ..v }
                } else {
                    v
                },
                Mode::Normal => v,
            },
            seq![],
        ),
        KeyInput::Esc => (TuiView { mode: Mode::Normal, ..v }, seq![]),
        _ => (v, seq![]),
    }
}

/// A key press on the screen that asks for a peer's address.
pub open spec fn input_key_step(v: TuiView, input: Seq<char>, c: usize, key: KeyInput) -> (TuiView, Seq<KeyActionView>) {
    match key {
        KeyInput::Char(ch) => (
            TuiView { screen: ScreenView::PeerInputScreen(text_inserted(input, c as int, ch), (c + 1) as usize), ..v },
            seq![],
        ),
        KeyInput::Backspace => (
            if c > 0 {
                TuiView { screen: ScreenView::PeerInputScreen(text_removed(input, c - 1), (c - 1) as usize), ..v }
            } else {
                v
            },
            seq![],
        ),
        KeyInput::Delete => (
            if c < text_bytes(input).len() {
                TuiView { screen: ScreenView::PeerInputScreen(text_removed(input, c as int), c), ..v }
            } else {
                v
            },
            seq![],
        ),
        KeyInput::Left => (
            if c > 0 {
                TuiView { screen: ScreenView::PeerInputScreen(input, (c - 1) as usize), ..v }
            } else {
                v
            },
            seq![],
        ),
        KeyInput::Right => (
            if text_bytes(input).len() > c {
                TuiView { screen: ScreenView::PeerInputScreen(input, (c + 1) as usize), ..v }
            } else {
                v
            },
            seq![],
        ),
        KeyInput::Enter => (
            TuiView { screen: ScreenView::LoadingScreen(adding_peer_text()), ..v },
            seq![KeyActionView::Connect(input, CONNECT_PORT)],
        ),
        KeyInput::Esc => (TuiView { screen: ScreenView::NoScreen, ..v }, seq![]),
        _ => (v, seq![]),
    }
}

/// What a key press does: the new state and the actions it asks for.
pub open spec fn key_step(v: TuiView, key: KeyInput) -> (TuiView, Seq<KeyActionView>) {
    match v.screen {
        ScreenView::NoScreen => main_key_step(v, key),
        ScreenView::PeerInputScreen(input, c) => input_key_step(v, input, c, key),
        ScreenView::LoadingScreen(_) => (v, seq![]),
        ScreenView::ConfirmScreen(prompt, options, idx) => match key {
            KeyInput::Left => (
                TuiView { screen: ScreenView::ConfirmScreen(prompt, options, option_left(idx, options.len() as usize)), ..v },
                seq![],
            ),
            KeyInput::Right => (
                TuiView { screen: ScreenView::ConfirmScreen(prompt, options, option_right(idx, options.len() as usize)), ..v },
                seq![],
            ),
            _ => (v, seq![]),
        },
    }
}

/// Whether a text edit at byte position `c` is possible: inserting needs a character
/// boundary there, removing needs a boundary before the end.
pub open spec fn can_insert(text: Seq<char>, c: usize) -> bool {
    is_char_boundary(text_bytes(text), c as int) && c < usize::MAX
}

pub open spec fn can_remove(text: Seq<char>, c: int) -> bool {
    is_char_boundary(text_bytes(text), c) && c < text_bytes(text).len()
}

/// The key presses the interface handles without failing: edits need character boundaries,
/// and wrapping around a list needs a non-empty list.
pub open spec fn key_handled(v: TuiView, key: KeyInput) -> bool {
    match v.screen {
        ScreenView::NoScreen => match key {
            KeyInput::Char(ch) if v.mode is Insert => can_insert(v.chat_buf, v.mode->cursor_pos),
            KeyInput::Char('j') | KeyInput::Down => v.tab is Contact && v.selected is Some ==> v.contacts.len() > 0,
            KeyInput::Char('k') | KeyInput::Up => v.tab is Contact && v.selected == Some(0usize) ==> v.contacts.len() > 0,
            KeyInput::Backspace => match v.mode {
                Mode::Insert { cursor_pos: c } => c > 0 ==> can_remove(v.chat_buf, c - 1),
                Mode::Normal => true,
            },
            KeyInput::Delete => match v.mode {
                Mode::Insert { cursor_pos: c } => c < text_bytes(v.chat_buf).len() ==> can_remove(v.chat_buf, c as int),
                Mode::Normal => true,
            },
            KeyInput::Enter => target(v) is Some && v.tab is Chat && v.mode is Insert ==> can_insert(v.chat_buf, v.mode->cursor_pos),
            _ => true,
        },
        ScreenView::PeerInputScreen(input, c) => match key {
            KeyInput::Char(_) => can_insert(input, c),
            KeyInput::Backspace => c > 0 ==> can_remove(input, c - 1),
            KeyInput::Delete => c < text_bytes(input).len() ==> can_remove(input, c as int),
            _ => true,
        },
        ScreenView::LoadingScreen(_) => true,
        ScreenView::ConfirmScreen(_, options, idx) => match key {
            KeyInput::Left => idx == 0 ==> options.len() > 0,
            KeyInput::Right => options.len() > 0 && (idx == options.len() - 1 || idx < usize::MAX),
            _ => true,
        },
    }
}


/// Whether the cursor of the chat bar, in insert mode, stands within the text.
pub open spec fn cursor_in_text(v: TuiView) -> bool {
    v.mode matches Mode::Insert { cursor_pos } ==> cursor_pos <= text_bytes(v.chat_buf).len()
}

/// A key press that can be handled keeps the chat bar's cursor within its text.
pub proof fn lemma_key_keeps_cursor_in_text(v: TuiView, key: KeyInput)
    requires
        key_handled(v, key),
        cursor_in_text(v),
    ensures
        cursor_in_text(key_step(v, key).0),
{
    if v.screen is NoScreen {
        match v.mode {
            Mode::Insert { cursor_pos: c } => {
                match key {
                    KeyInput::Char(ch) => {
                        lemma_inserted_bytes(v.chat_buf, c as int, ch);
                    },
                    KeyInput::Enter => {
                        if target(v) is Some && v.tab is Chat {
                            lemma_inserted_bytes(v.chat_buf, c as int, '\n');
                        }
                    },
                    KeyInput::Backspace => {
                        if c > 0 {
                            lemma_removed_bytes(v.chat_buf, c - 1);
                        }
                    },
                    KeyInput::Delete => {
                        if c < text_bytes(v.chat_buf).len() {
                            lemma_removed_bytes(v.chat_buf, c as int);
                        }
                    },
                    _ => {},
                }
            },
            Mode::Normal => {},
        }
    }
}

/// Handling of key presses.
pub trait Keys: Sized {
    /// Whether the key press can be handled without failing.
    spec fn handles_key(&self, key: KeyInput) -> bool;

    /// Whether `next` and `actions` are what the key press makes of `self`.
    spec fn after_key(&self, key: KeyInput, next: Self, actions: Seq<KeyActionView>) -> bool;

    /// Handles a key press: changes the state and returns what it asks for.
    fn manage_keys(&mut self, key: KeyInput) -> (actions: Vec<KeyAction>)
        requires
            old(self).handles_key(key),
        ensures
            old(self).after_key(key, *final(self), actions_view(actions)),
    ;
}

impl Keys for TuiState {
    open spec fn handles_key(&self, key: KeyInput) -> bool {
        key_handled(self@, key)
    }

    open spec fn after_key(&self, key: KeyInput, next: Self, actions: Seq<KeyActionView>) -> bool {
        (next@, actions) == key_step(self@, key)
    }

    fn manage_keys(&mut self, key: KeyInput) -> (actions: Vec<KeyAction>) {
        self.handle_key(key)
    }
}

fn no_actions() -> (v: Vec<KeyAction>)
    ensures
        actions_view(v) == Seq::<KeyActionView>::empty(),
{
    let v: Vec<KeyAction> = Vec::new();
    assert(actions_view(v) =~= Seq::<KeyActionView>::empty());
    v
}

fn one_action(a: KeyAction) -> (v: Vec<KeyAction>)
    ensures
        actions_view(v) == seq![a@],
{
    let mut v: Vec<KeyAction> = Vec::new();
    v.push(a);
    assert(actions_view(v) =~= seq![a@]);
    v
}

fn two_actions(a: KeyAction, b: KeyAction) -> (v: Vec<KeyAction>)
    ensures
        actions_view(v) == seq![a@, b@],
{
    let mut v: Vec<KeyAction> = Vec::new();
    v.push(a);
    v.push(b);
    assert(actions_view(v) =~= seq![a@, b@]);
    v
}

fn connecting() -> (s: String)
    ensures
        s@ == connecting_text(),
{
    let s = "Connecting...".to_owned();
    proof {
        reveal_strlit("Connecting...");
    }
    assert(s@ =~= connecting_text());
    s
}

fn adding_peer() -> (s: String)
    ensures
        s@ == adding_peer_text(),
{
    let s = "Adding peer...".to_owned();
    proof {
        reveal_strlit("Adding peer...");
    }
    assert(s@ =~= adding_peer_text());
    s
}

impl TuiState {
    /// Whether the key press can be handled without failing.
    pub fn can_handle(&self, key: KeyInput) -> (b: bool)
        ensures
            b == key_handled(self@, key),
    {
        match &self.active_screen {
            Screen::NoScreen => match key {
                KeyInput::Char(ch) => match self.mode {
                    Mode::Insert { cursor_pos } => at_char_boundary(&self.chat_buf, cursor_pos) && cursor_pos < usize::MAX,
                    Mode::Normal => {
                        if ch == 'j' {
                            !(self.tab_is_contact() && self.selected.is_some()) || self.contacts.len() > 0
                        } else if ch == 'k' {
                            !(self.tab_is_contact() && self.selected == Some(0usize)) || self.contacts.len() > 0
                        } else {
                            true
                        }
                    },
                },
                KeyInput::Down => !(self.tab_is_contact() && self.selected.is_some()) || self.contacts.len() > 0,
                KeyInput::Up => !(self.tab_is_contact() && self.selected == Some(0usize)) || self.contacts.len() > 0,
                KeyInput::Backspace => match self.mode {
                    Mode::Insert { cursor_pos } => cursor_pos == 0 || (at_char_boundary(&self.chat_buf, cursor_pos - 1)
                        && cursor_pos - 1 < text_len(&self.chat_buf)),
                    Mode::Normal => true,
                },
                KeyInput::Delete => match self.mode {
                    Mode::Insert { cursor_pos } => cursor_pos >= text_len(&self.chat_buf) || at_char_boundary(&self.chat_buf, cursor_pos),
                    Mode::Normal => true,
                },
                KeyInput::Enter => {
                    let has_target = match self.selected {
                        Some(i) => i < self.contacts.len(),
                        None => false,
                    };
                    match self.mode {
                        Mode::Insert { cursor_pos } => !(has_target && self.tab_is_chat()) || (at_char_boundary(&self.chat_buf, cursor_pos) && cursor_pos < usize::MAX),
                        Mode::Normal => true,
                    }
                },
                _ => true,
            },
            Screen::PeerInputScreen { input, cursor_pos } => match key {
                KeyInput::Char(_) => at_char_boundary(input, *cursor_pos) && *cursor_pos < usize::MAX,
                KeyInput::Backspace => *cursor_pos == 0 || (at_char_boundary(input, *cursor_pos - 1) && *cursor_pos - 1 < text_len(input)),
                KeyInput::Delete => *cursor_pos >= text_len(input) || at_char_boundary(input, *cursor_pos),
                _ => true,
            },
            Screen::LoadingScreen { .. } => true,
            Screen::ConfirmScreen { options, idx, .. } => match key {
                KeyInput::Left => *idx != 0 || options.len() > 0,
                KeyInput::Right => options.len() > 0 && (*idx == options.len() - 1 || *idx < usize::MAX),
                _ => true,
            },
        }
    }

    fn tab_is_contact(&self) -> (b: bool)
        ensures
            b == (self.tab is Contact),
    {
        match self.tab {
            Tab::Contact { .. } => true,
            _ => false,
        }
    }

    fn tab_is_chat(&self) -> (b: bool)
        ensures
            b == (self.tab is Chat),
    {
        match self.tab {
            Tab::Chat => true,
            _ => false,
        }
    }

    /// Handles a key press: changes the state and returns what it asks for.
    pub fn handle_key(&mut self, key: KeyInput) -> (actions: Vec<KeyAction>)
        requires
            key_handled(old(self)@, key),
        ensures
            (final(self)@, actions_view(actions)) == key_step(old(self)@, key),
    {
        match self.active_screen {
            Screen::NoScreen => self.main_key(key),
            Screen::PeerInputScreen { .. } => self.input_key(key),
            Screen::LoadingScreen { .. } => no_actions(),
            Screen::ConfirmScreen { .. } => {
                self.confirm_key(key);
                no_actions()
            },
        }
    }

    fn confirm_key(&mut self, key: KeyInput)
        requires
            old(self).active_screen is ConfirmScreen,
            key_handled(old(self)@, key),
        ensures
            final(self)@ == key_step(old(self)@, key).0,
    {
        match self.active_screen {
            Screen::ConfirmScreen { ref options, ref mut idx, .. } => match key {
                KeyInput::Left => {
                    if *idx == 0 {
                        *idx = options.len() - 1;
                    } else {
                        *idx = *idx - 1;
                    }
                },
                KeyInput::Right => {
                    if *idx == options.len() - 1 {
                        *idx = 0;
                    } else {
                        *idx = *idx + 1;
                    }
                },
                _ => {},
            },
            _ => {},
        }
    }

    fn input_key(&mut self, key: KeyInput) -> (actions: Vec<KeyAction>)
        requires
            old(self).active_screen is PeerInputScreen,
            key_handled(old(self)@, key),
        ensures
            (final(self)@, actions_view(actions)) == key_step(old(self)@, key),
    {
        match key {
            KeyInput::Enter => {
                let address = match self.active_screen {
                    Screen::PeerInputScreen { ref input, .. } => input.clone(),
                    _ => String::new(),
                };
                self.active_screen = Screen::LoadingScreen { loading_text: adding_peer() };
                return one_action(KeyAction::Connect(address, CONNECT_PORT));
            },
            KeyInput::Esc => {
                self.active_screen = Screen::NoScreen;
                return no_actions();
            },
            _ => {},
        }
        match self.active_screen {
            Screen::PeerInputScreen { ref mut input, ref mut cursor_pos } => match key {
                KeyInput::Char(ch) => insert_at_cursor(input, cursor_pos, ch),
                KeyInput::Backspace => {
                    if *cursor_pos > 0 {
                        *cursor_pos = *cursor_pos - 1;
                        remove_at(input, *cursor_pos);
                    }
                },
                KeyInput::Delete => {
                    if *cursor_pos < text_len(input) {
                        remove_at(input, *cursor_pos);
                    }
                },
                KeyInput::Left => {
                    if *cursor_pos > 0 {
                        *cursor_pos = *cursor_pos - 1;
                    }
                },
                KeyInput::Right => {
                    if text_len(input) > *cursor_pos {
                        *cursor_pos = *cursor_pos + 1;
                    }
                },
                _ => {},
            },
            _ => {},
        }
        no_actions()
    }

    fn move_down(&mut self) -> (actions: Vec<KeyAction>)
        requires
            old(self).tab is Contact && old(self).selected is Some ==> old(self).contacts.len() > 0,
        ensures
            (final(self)@, actions_view(actions)) == main_key_step(old(self)@, KeyInput::Down),
    {
        if self.tab_is_contact() {
            let n = self.contacts.len();
            self.selected = match self.selected {
                Some(idx) => if idx == n - 1 { Some(0) } else { select_next(Some(idx)) },
                None => select_next(None),
            };
        }
        one_action(KeyAction::UpdateChats)
    }

    fn move_up(&mut self) -> (actions: Vec<KeyAction>)
        requires
            old(self).tab is Contact && old(self).selected == Some(0usize) ==> old(self).contacts.len() > 0,
        ensures
            (final(self)@, actions_view(actions)) == main_key_step(old(self)@, KeyInput::Up),
    {
        if self.tab_is_contact() {
            let n = self.contacts.len();
            self.selected = match self.selected {
                Some(idx) => if idx == 0 { Some(n - 1) } else { select_previous(Some(idx)) },
                None => select_previous(None),
            };
        }
        one_action(KeyAction::UpdateChats)
    }

    fn main_key(&mut self, key: KeyInput) -> (actions: Vec<KeyAction>)
        requires
            old(self).active_screen is NoScreen,
            key_handled(old(self)@, key),
        ensures
            (final(self)@, actions_view(actions)) == key_step(old(self)@, key),
    {
        match key {
            KeyInput::Tab => {
                let list: Vec<String> = Vec::new();
                assert(texts_view(list) =~= Seq::<Seq<char>>::empty());
                self.tab = match self.tab {
                    Tab::Contact { .. } => Tab::Chat,
                    _ => Tab::Contact { list, active: None },
                };
                assert(self.tab@ =~= next_tab(old(self).tab@));
                no_actions()
            },
            KeyInput::Char(ch) => match self.mode {
                Mode::Insert { cursor_pos } => {
                    let mut c = cursor_pos;
                    insert_at_cursor(&mut self.chat_buf, &mut c, ch);
                    self.mode = Mode::Insert { cursor_pos: c };
                    no_actions()
                },
                Mode::Normal => {
                    if ch == 'a' {
                        self.active_screen = Screen::PeerInputScreen { input: String::new(), cursor_pos: 0 };
                        no_actions()
                    } else if ch == 'i' {
                        if self.tab_is_chat() {
                            self.mode = Mode::Insert { cursor_pos: 0 };
                        }
                        no_actions()
                    } else if ch == 'j' {
                        self.move_down()
                    } else if ch == 'k' {
                        self.move_up()
                    } else if ch == 'q' {
                        self.running = false;
                        no_actions()
                    } else {
                        no_actions()
                    }
                },
            },
            KeyInput::Down => self.move_down(),
            KeyInput::Up => self.move_up(),
            KeyInput::Backspace => {
                match self.mode {
                    Mode::Insert { cursor_pos } => {
                        if cursor_pos > 0 {
                            let c = cursor_pos - 1;
                            self.mode = Mode::Insert { cursor_pos: c };
                            remove_at(&mut self.chat_buf, c);
                        }
                    },
                    Mode::Normal => {},
                }
                no_actions()
            },
            KeyInput::Delete => {
                match self.mode {
                    Mode::Insert { cursor_pos } => {
                        if cursor_pos < text_len(&self.chat_buf) {
                            remove_at(&mut self.chat_buf, cursor_pos);
                        }
                    },
                    Mode::Normal => {},
                }
                no_actions()
            },
            KeyInput::Enter => self.enter_key(),
            KeyInput::Left => {
                match self.mode {
                    Mode::Insert { cursor_pos } => {
                        if cursor_pos > 0 {
                            self.mode = Mode::Insert { cursor_pos: cursor_pos - 1 };
                        }
                    },
                    Mode::Normal => {},
                }
                no_actions()
            },
            KeyInput::Right => {
                match self.mode {
                    Mode::Insert { cursor_pos } => {
                        if text_len(&self.chat_buf) > cursor_pos {
                            self.mode = Mode::Insert { cursor_pos: cursor_pos + 1 };
                        }
                    },
                    Mode::Normal => {},
                }
                no_actions()
            },
            KeyInput::Esc => {
                self.mode = Mode::Normal;
                no_actions()
            },
            KeyInput::Other => no_actions(),
        }
    }

    fn enter_key(&mut self) -> (actions: Vec<KeyAction>)
        requires
            old(self).active_screen is NoScreen,
            key_handled(old(self)@, KeyInput::Enter),
        ensures
            (final(self)@, actions_view(actions)) == key_step(old(self)@, KeyInput::Enter),
    {
        let (id, address) = match self.selected {
            Some(i) => if i < self.contacts.len() {
                (self.contacts[i].id, self.contacts[i].address.clone())
            } else {
                return no_actions();
            },
            None => return no_actions(),
        };
        match self.tab {
            Tab::Contact { .. } => {
                self.active_screen = Screen::LoadingScreen { loading_text: connecting() };
                two_actions(
                    KeyAction::Connect(address, CONNECT_PORT),
                    KeyAction::RequestChats { peer_id: id as u8, msg_amount: CHAT_AMOUNT },
                )
            },
            Tab::Chat => match self.mode {
                Mode::Normal => {
                    let text = trim_text(&self.chat_buf);
                    let sent = self.chat_buf.clone();
                    self.chat_buf = String::new();
                    two_actions(KeyAction::SendText(id as u8, text), KeyAction::ChatSent { text: sent, receiver: id })
                },
                Mode::Insert { cursor_pos } => {
                    let mut c = cursor_pos;
                    insert_at_cursor(&mut self.chat_buf, &mut c, '\n');
                    self.mode = Mode::Insert { cursor_pos: c };
                    no_actions()
                },
            },
            Tab::NoTab => no_actions(),
        }
    }
}

} // verus!
