//! What editing keys do to the text being typed, stated over its UTF-8 bytes.
use vstd::prelude::*;

use vstd::utf8::{decode_utf8, encode_utf8, is_char_boundary};

use crate::tui::edit::{lemma_inserted_bytes, lemma_removed_bytes, text_bytes, text_removed};
use crate::tui::functions::Mode;
use crate::tui::keys::{
    adding_peer_text, connecting_text, is_white_space, key_handled, key_step, leading_white, target,
    trailing_white, trimmed, KeyActionView, KeyInput, TuiView, CHAT_AMOUNT, CONNECT_PORT,
};
use crate::tui::matches::{ScreenView, TabView};

verus! {

/// The character whose encoding starts at byte `at` of a text.
pub open spec fn char_at_byte(s: Seq<char>, at: int) -> char {
    decode_utf8(text_bytes(s).skip(at))[0]
}

/// `after` is `before` with exactly one character cut out: the one whose encoding starts at
/// byte `at`. The bytes before `at` and after that character stay as they were.
pub open spec fn char_cut_at(before: Seq<char>, after: Seq<char>, at: int) -> bool {
    let e = encode_utf8(seq![char_at_byte(before, at)]);
    &&& at + e.len() <= text_bytes(before).len()
    &&& text_bytes(before).subrange(at, at + e.len()) == e
    &&& text_bytes(after) == text_bytes(before).take(at) + text_bytes(before).skip(at + e.len())
}

/// `after` is `before` with the encoding of `ch` put in at byte `at`.
pub open spec fn char_put_at(before: Seq<char>, after: Seq<char>, at: int, ch: char) -> bool {
    text_bytes(after) == text_bytes(before).take(at) + encode_utf8(seq![ch]) + text_bytes(before).skip(at)
}

/// The text of an address screen (empty for any other screen).
pub open spec fn input_text(s: ScreenView) -> Seq<char> {
    match s {
        ScreenView::PeerInputScreen(t, _) => t,
        _ => Seq::empty(),
    }
}

proof fn lemma_cut(s: Seq<char>, at: int, after: Seq<char>)
    requires
        is_char_boundary(text_bytes(s), at),
        0 <= at < text_bytes(s).len(),
        after == text_removed(s, at),
    ensures
        char_cut_at(s, after, at),
        text_bytes(after).len() < text_bytes(s).len(),
{
    lemma_removed_bytes(s, at);
    let b = text_bytes(s);
    let n = encode_utf8(seq![char_at_byte(s, at)]).len();
    assert((b.take(at) + b.skip(at + n)).len() == at + (b.len() - (at + n)));
}

/// Backspace on the address screen, with the cursor after the start, deletes the character
/// just before the cursor and moves the cursor back by one; the text gets shorter, nothing else
/// changes and nothing is asked for. At the start it changes nothing.
pub proof fn lemma_input_backspace_deletes(v: TuiView, input: Seq<char>, c: usize)
    requires
        v.screen == ScreenView::PeerInputScreen(input, c),
        key_handled(v, KeyInput::Backspace),
    ensures
        ({
            let (next, actions) = key_step(v, KeyInput::Backspace);
            let t = input_text(next.screen);
            &&& actions.len() == 0
            &&& c > 0 ==> next == TuiView { screen: ScreenView::PeerInputScreen(t, (c - 1) as usize), ..v }
            &&& c > 0 ==> char_cut_at(input, t, c - 1)
            &&& c > 0 ==> text_bytes(t).len() < text_bytes(input).len()
            &&& c == 0 ==> next == v
        }),
{
    if c > 0 {
        lemma_cut(input, c - 1, input_text(key_step(v, KeyInput::Backspace).0.screen));
    }
}

/// Delete on the address screen, with the cursor before the end, deletes the character at the
/// cursor and leaves the cursor where it is; at the end it changes nothing.
pub proof fn lemma_input_delete_deletes(v: TuiView, input: Seq<char>, c: usize)
    requires
        v.screen == ScreenView::PeerInputScreen(input, c),
        key_handled(v, KeyInput::Delete),
    ensures
        ({
            let (next, actions) = key_step(v, KeyInput::Delete);
            let t = input_text(next.screen);
            &&& actions.len() == 0
            &&& c < text_bytes(input).len() ==> next == TuiView { screen: ScreenView::PeerInputScreen(t, c), ..v }
            &&& c < text_bytes(input).len() ==> char_cut_at(input, t, c as int)
            &&& c < text_bytes(input).len() ==> text_bytes(t).len() < text_bytes(input).len()
            &&& c >= text_bytes(input).len() ==> next == v
        }),
{
    if c < text_bytes(input).len() {
        lemma_cut(input, c as int, input_text(key_step(v, KeyInput::Delete).0.screen));
    }
}

/// Typing a character on the address screen puts it at the cursor and moves the cursor past it.
pub proof fn lemma_input_typing_inserts(v: TuiView, input: Seq<char>, c: usize, ch: char)
    requires
        v.screen == ScreenView::PeerInputScreen(input, c),
        key_handled(v, KeyInput::Char(ch)),
    ensures
        ({
            let (next, actions) = key_step(v, KeyInput::Char(ch));
            let t = input_text(next.screen);
            &&& actions.len() == 0
            &&& next == TuiView { screen: ScreenView::PeerInputScreen(t, (c + 1) as usize), ..v }
            &&& char_put_at(input, t, c as int, ch)
        }),
{
    lemma_inserted_bytes(input, c as int, ch);
}

/// Backspace in the chat bar, with the cursor after the start, deletes the character just before
/// the cursor and moves the cursor back by one; only the chat bar and its cursor change.
pub proof fn lemma_chat_backspace_deletes(v: TuiView, c: usize)
    requires
        v.screen is NoScreen,
        v.mode == (Mode::Insert { cursor_pos: c }),
        key_handled(v, KeyInput::Backspace),
    ensures
        ({
            let (next, actions) = key_step(v, KeyInput::Backspace);
            &&& actions.len() == 0
            &&& c > 0 ==> next == TuiView {
                mode: Mode::Insert { cursor_pos: (c - 1) as usize },
                chat_buf: next.chat_buf,
                ..v
            }
            &&& c > 0 ==> char_cut_at(v.chat_buf, next.chat_buf, c - 1)
            &&& c > 0 ==> text_bytes(next.chat_buf).len() < text_bytes(v.chat_buf).len()
            &&& c == 0 ==> next == v
        }),
{
    if c > 0 {
        lemma_cut(v.chat_buf, c - 1, key_step(v, KeyInput::Backspace).0.chat_buf);
    }
}

/// Delete in the chat bar, with the cursor before the end, deletes the character at the cursor;
/// only the chat bar changes.
pub proof fn lemma_chat_delete_deletes(v: TuiView, c: usize)
    requires
        v.screen is NoScreen,
        v.mode == (Mode::Insert { cursor_pos: c }),
        key_handled(v, KeyInput::Delete),
    ensures
        ({
            let (next, actions) = key_step(v, KeyInput::Delete);
            &&& actions.len() == 0
            &&& c < text_bytes(v.chat_buf).len() ==> next == TuiView { chat_buf: next.chat_buf, ..v }
            &&& c < text_bytes(v.chat_buf).len() ==> char_cut_at(v.chat_buf, next.chat_buf, c as int)
            &&& c < text_bytes(v.chat_buf).len() ==> text_bytes(next.chat_buf).len() < text_bytes(v.chat_buf).len()
            &&& c >= text_bytes(v.chat_buf).len() ==> next == v
        }),
{
    if c < text_bytes(v.chat_buf).len() {
        lemma_cut(v.chat_buf, c as int, key_step(v, KeyInput::Delete).0.chat_buf);
    }
}

/// Typing a character in the chat bar, in insert mode, puts it at the cursor and moves the
/// cursor past it, whichever pane has the focus; only the chat bar and its cursor change.
pub proof fn lemma_chat_typing_inserts(v: TuiView, c: usize, ch: char)
    requires
        v.screen is NoScreen,
        v.mode == (Mode::Insert { cursor_pos: c }),
        key_handled(v, KeyInput::Char(ch)),
    ensures
        ({
            let (next, actions) = key_step(v, KeyInput::Char(ch));
            &&& actions.len() == 0
            &&& next == TuiView {
                mode: Mode::Insert { cursor_pos: (c + 1) as usize },
                chat_buf: next.chat_buf,
                ..v
            }
            &&& char_put_at(v.chat_buf, next.chat_buf, c as int, ch)
        }),
{
    lemma_inserted_bytes(v.chat_buf, c as int, ch);
}

/// In normal mode on the main screen, 'i' starts insert mode, with the cursor at the start of
/// the chat bar, only when the chat pane has the focus; with any other pane it changes nothing.
/// Either way it asks for nothing.
pub proof fn lemma_insert_mode_only_from_chat(v: TuiView)
    requires
        v.screen is NoScreen,
        v.mode is Normal,
    ensures
        key_step(v, KeyInput::Char('i')).1.len() == 0,
        v.tab is Chat ==> key_step(v, KeyInput::Char('i')).0 == (TuiView { mode: Mode::Insert { cursor_pos: 0 }, ..v }),
        !(v.tab is Chat) ==> key_step(v, KeyInput::Char('i')).0 == v,
{
}

/// In normal mode on the main screen with the contacts pane focused, 'j' moves the selection
/// down by one and leaves the mode and the chat bar alone; pressed after 'i', it still does, since 'i'
/// changed nothing there.
pub proof fn lemma_contacts_keep_normal_mode(v: TuiView)
    requires
        v.screen is NoScreen,
        v.mode is Normal,
        v.tab is Contact,
    ensures
        key_step(key_step(v, KeyInput::Char('i')).0, KeyInput::Char('j')) == key_step(v, KeyInput::Char('j')),
        key_step(v, KeyInput::Char('j')).0.mode == v.mode,
        key_step(v, KeyInput::Char('j')).0.chat_buf == v.chat_buf,
        key_step(v, KeyInput::Char('j')).1 == seq![KeyActionView::UpdateChats],
        v.selected is None ==> key_step(v, KeyInput::Char('j')).0.selected == Some(0usize),
        v.contacts.len() <= usize::MAX && v.selected is Some && v.selected->0 + 1 < v.contacts.len() ==> key_step(v, KeyInput::Char('j')).0.selected
            == Some((v.selected->0 + 1) as usize),
{
    lemma_insert_mode_only_from_chat(v);
}

/// While a loading screen is shown, no key changes anything or asks for anything.
pub proof fn lemma_loading_screen_ignores_keys(v: TuiView, key: KeyInput)
    requires
        v.screen is LoadingScreen,
    ensures
        key_step(v, key) == (v, Seq::<KeyActionView>::empty()),
{
}

/// On the address screen the arrow keys move the cursor by one, not past either end of the
/// text, and leave the text and everything else as it was.
pub proof fn lemma_input_arrows_move_cursor(v: TuiView, input: Seq<char>, c: usize)
    requires
        v.screen == ScreenView::PeerInputScreen(input, c),
    ensures
        key_step(v, KeyInput::Left) == (TuiView {
            screen: ScreenView::PeerInputScreen(input, if c > 0 { (c - 1) as usize } else { c }),
            ..v
        }, Seq::<KeyActionView>::empty()),
        key_step(v, KeyInput::Right) == (TuiView {
            screen: ScreenView::PeerInputScreen(input, if c < text_bytes(input).len() { (c + 1) as usize } else { c }),
            ..v
        }, Seq::<KeyActionView>::empty()),
{
}

/// In insert mode the arrow keys move the chat bar's cursor by one, not past either end of the
/// text, and leave the text and everything else as it was.
pub proof fn lemma_chat_arrows_move_cursor(v: TuiView, c: usize)
    requires
        v.screen is NoScreen,
        v.mode == (Mode::Insert { cursor_pos: c }),
    ensures
        key_step(v, KeyInput::Left) == (TuiView {
            mode: Mode::Insert { cursor_pos: if c > 0 { (c - 1) as usize } else { c } },
            ..v
        }, Seq::<KeyActionView>::empty()),
        key_step(v, KeyInput::Right) == (TuiView {
            mode: Mode::Insert { cursor_pos: if c < text_bytes(v.chat_buf).len() { (c + 1) as usize } else { c } },
            ..v
        }, Seq::<KeyActionView>::empty()),
{
}

/// In normal mode no key edits the chat bar.
pub proof fn lemma_normal_mode_keeps_chat_bar(v: TuiView, key: KeyInput)
    requires
        v.screen is NoScreen,
        v.mode is Normal,
    ensures
        key_step(v, key).0.chat_buf == v.chat_buf || (key == KeyInput::Enter && v.tab is Chat && target(v) is Some),
        key_step(v, key).0.mode == v.mode || key == KeyInput::Char('i'),
{
}

/// Esc closes the address screen and drops what was typed there; on the main screen it leaves
/// insert mode. Nothing else changes and nothing is asked for.
pub proof fn lemma_esc_closes_or_leaves_insert_mode(v: TuiView)
    ensures
        v.screen is PeerInputScreen ==> key_step(v, KeyInput::Esc) == (TuiView {
            screen: ScreenView::NoScreen,
            ..v
        }, Seq::<KeyActionView>::empty()),
        v.screen is NoScreen ==> key_step(v, KeyInput::Esc) == (TuiView {
            mode: Mode::Normal,
            ..v
        }, Seq::<KeyActionView>::empty()),
{
}

/// Enter on the address screen asks to connect to the typed address on the interface's port
/// and shows that a peer is being added.
pub proof fn lemma_input_enter_connects(v: TuiView, input: Seq<char>, c: usize)
    requires
        v.screen == ScreenView::PeerInputScreen(input, c),
    ensures
        key_step(v, KeyInput::Enter) == (TuiView {
            screen: ScreenView::LoadingScreen(adding_peer_text()),
            ..v
        }, seq![KeyActionView::Connect(input, CONNECT_PORT)]),
{
}

/// Enter on the main screen with a contact selected: from the contacts pane it connects to the
/// contact and asks for its latest chats; from the chat pane in normal mode it sends the chat
/// bar's text, trimmed, records what was typed as sent and clears the bar; in insert mode it
/// starts a new line. With no contact selected it does nothing. (`id` and `addr` are the
/// selected contact's id and address.)
pub proof fn lemma_main_enter(v: TuiView, id: u32, addr: Seq<char>)
    requires
        v.screen is NoScreen,
    ensures
        target(v) is None ==> key_step(v, KeyInput::Enter) == (v, Seq::<KeyActionView>::empty()),
        target(v) == Some((id, addr)) && v.tab is Contact ==> key_step(v, KeyInput::Enter) == (TuiView {
            screen: ScreenView::LoadingScreen(connecting_text()),
            ..v
        }, seq![
            KeyActionView::Connect(addr, CONNECT_PORT),
            KeyActionView::RequestChats(id as u8, CHAT_AMOUNT),
        ]),
        target(v) == Some((id, addr)) && v.tab is Chat && v.mode is Normal ==> key_step(v, KeyInput::Enter) == (TuiView {
            chat_buf: Seq::empty(),
            ..v
        }, seq![
            KeyActionView::SendText(id as u8, trimmed(v.chat_buf)),
            KeyActionView::ChatSent(v.chat_buf, id),
        ]),
        target(v) == Some((id, addr)) && v.tab is Chat && v.mode is Insert ==> key_step(v, KeyInput::Enter).0 == (TuiView {
            mode: Mode::Insert { cursor_pos: (v.mode->cursor_pos + 1) as usize },
            chat_buf: key_step(v, KeyInput::Enter).0.chat_buf,
            ..v
        }),
{
}

/// Tab moves the focus from the contacts pane to the chat pane, and from any other pane to the
/// contacts pane, in either mode; nothing else changes.
pub proof fn lemma_tab_moves_focus(v: TuiView)
    requires
        v.screen is NoScreen,
    ensures
        key_step(v, KeyInput::Tab).1.len() == 0,
        v.tab is Contact ==> key_step(v, KeyInput::Tab).0 == (TuiView { tab: TabView::Chat, ..v }),
        !(v.tab is Contact) ==> key_step(v, KeyInput::Tab).0 == (TuiView {
            tab: TabView::Contact(Seq::empty(), None),
            ..v
        }),
{
}

/// In normal mode on the main screen, 'q' stops the interface and 'a' opens an empty address
/// screen with the cursor at its start; nothing else changes.
pub proof fn lemma_quit_and_add_keys(v: TuiView)
    requires
        v.screen is NoScreen,
        v.mode is Normal,
    ensures
        key_step(v, KeyInput::Char('q')) == (TuiView { running: false, ..v }, Seq::<KeyActionView>::empty()),
        key_step(v, KeyInput::Char('a')) == (TuiView {
            screen: ScreenView::PeerInputScreen(Seq::empty(), 0),
            ..v
        }, Seq::<KeyActionView>::empty()),
{
}

/// With the contacts pane focused, 'j' and Down move the selection down, from the last contact
/// back to the first, and 'k' and Up move it up, from the first back to the last; each asks to
/// refresh the chats. Only the selection changes.
pub proof fn lemma_contact_selection_wraps(v: TuiView, i: usize)
    requires
        v.screen is NoScreen,
        v.mode is Normal,
        v.tab is Contact,
        v.selected == Some(i),
        i < v.contacts.len() <= usize::MAX,
    ensures
        key_step(v, KeyInput::Down) == key_step(v, KeyInput::Char('j')),
        key_step(v, KeyInput::Up) == key_step(v, KeyInput::Char('k')),
        key_step(v, KeyInput::Down) == (TuiView {
            selected: Some(if i + 1 == v.contacts.len() { 0 } else { (i + 1) as usize }),
            ..v
        }, seq![KeyActionView::UpdateChats]),
        key_step(v, KeyInput::Up) == (TuiView {
            selected: Some(if i == 0 { (v.contacts.len() - 1) as usize } else { (i - 1) as usize }),
            ..v
        }, seq![KeyActionView::UpdateChats]),
{
}

/// On a confirmation screen Left and Right move among the options, wrapping at both ends, and
/// other keys change nothing.
pub proof fn lemma_confirm_options_wrap(v: TuiView, prompt: Seq<char>, options: Seq<Seq<char>>, idx: usize, key: KeyInput)
    requires
        v.screen == ScreenView::ConfirmScreen(prompt, options, idx),
        idx < options.len() <= usize::MAX,
    ensures
        key == KeyInput::Left ==> key_step(v, key).0 == (TuiView {
            screen: ScreenView::ConfirmScreen(prompt, options, if idx == 0 { (options.len() - 1) as usize } else { (idx - 1) as usize }),
            ..v
        }),
        key == KeyInput::Right ==> key_step(v, key).0 == (TuiView {
            screen: ScreenView::ConfirmScreen(prompt, options, if idx + 1 == options.len() { 0 } else { (idx + 1) as usize }),
            ..v
        }),
        key != KeyInput::Left && key != KeyInput::Right ==> key_step(v, key).0 == v,
        key_step(v, key).1.len() == 0,
{
}

proof fn lemma_leading_white_facts(s: Seq<char>)
    ensures
        leading_white(s) <= s.len(),
        forall|k: int| 0 <= k < leading_white(s) ==> is_white_space(#[trigger] s[k]),
        leading_white(s) < s.len() ==> !is_white_space(s[leading_white(s) as int]),
    decreases s.len(),
{
    if s.len() > 0 && is_white_space(s[0]) {
        let t = s.drop_first();
        lemma_leading_white_facts(t);
        assert forall|k: int| 0 <= k < leading_white(s) implies is_white_space(#[trigger] s[k]) by {
            if k > 0 {
                assert(s[k] == t[k - 1]);
            }
        }
        if leading_white(s) < s.len() {
            assert(s[leading_white(s) as int] == t[leading_white(t) as int]);
        }
    }
}

proof fn lemma_trailing_white_facts(s: Seq<char>)
    ensures
        trailing_white(s) <= s.len(),
        forall|k: int| s.len() - trailing_white(s) <= k < s.len() ==> is_white_space(#[trigger] s[k]),
        trailing_white(s) < s.len() ==> !is_white_space(s[s.len() - 1 - trailing_white(s)]),
    decreases s.len(),
{
    if s.len() > 0 && is_white_space(s.last()) {
        let t = s.drop_last();
        lemma_trailing_white_facts(t);
        assert forall|k: int| s.len() - trailing_white(s) <= k < s.len() implies is_white_space(#[trigger] s[k]) by {
            if k < s.len() - 1 {
                assert(s[k] == t[k]);
            }
        }
        if trailing_white(s) < s.len() {
            assert(s[s.len() - 1 - trailing_white(s)] == t[t.len() - 1 - trailing_white(t)]);
        }
    }
}

/// Trimming keeps the part of a text between its leading and its trailing white space: every
/// character cut off is white space, and what is kept, unless empty, neither starts nor ends
/// with white space.
pub proof fn lemma_trimmed_cuts_white_ends(s: Seq<char>)
    ensures
        ({
            let p = leading_white(s) as int;
            let t = trimmed(s);
            &&& p + t.len() <= s.len()
            &&& s.subrange(p, p + t.len()) == t
            &&& forall|k: int| 0 <= k < p ==> is_white_space(#[trigger] s[k])
            &&& forall|k: int| p + t.len() <= k < s.len() ==> is_white_space(#[trigger] s[k])
            &&& t.len() > 0 ==> !is_white_space(t[0]) && !is_white_space(t.last())
        }),
{
    let p = leading_white(s) as int;
    lemma_leading_white_facts(s);
    let rest = s.skip(p);
    lemma_trailing_white_facts(rest);
    let t = trimmed(s);
    assert(t =~= s.subrange(p, p + t.len()));
    assert forall|k: int| p + t.len() <= k < s.len() implies is_white_space(#[trigger] s[k]) by {
        assert(s[k] == rest[k - p]);
    }
    if t.len() > 0 {
        assert(t[0] == s[p]);
        assert(t.last() == rest[rest.len() - 1 - trailing_white(rest)]);
    }
}

} // verus!
