//! The panes and screens of the terminal interface.
use vstd::prelude::*;

use crate::tui::keys::KeyInput;

verus! {

/// The pane that has the focus.
#[derive(Debug, Clone, PartialEq, Eq)]
pub enum Tab {
    Contact { list: Vec<String>, active: Option<usize> },
    Chat,
    NoTab,
}

/// The screen shown over the panes.
#[non_exhaustive]
#[derive(Debug, Clone, PartialEq, Eq)]
pub enum Screen {
    PeerInputScreen { input: String, cursor_pos: usize },
    LoadingScreen { loading_text: String },
    ConfirmScreen { prompt: String, options: Vec<String>, idx: usize },
    NoScreen,
}

pub open spec fn texts_view(v: Vec<String>) -> Seq<Seq<char>> {
    v@.map_values(|s: String| s@)
}

/// A pane as plain values.
pub enum TabView {
    Contact(Seq<Seq<char>>, Option<usize>),
    Chat,
    NoTab,
}

/// A screen as plain values.
pub enum ScreenView {
    PeerInputScreen(Seq<char>, usize),
    LoadingScreen(Seq<char>),
    ConfirmScreen(Seq<char>, Seq<Seq<char>>, usize),
    NoScreen,
}

impl View for Tab {
    type V = TabView;

    open spec fn view(&self) -> TabView {
        match self {
            Tab::Contact { list, active } => TabView::Contact(texts_view(*list), *active),
            Tab::Chat => TabView::Chat,
            Tab::NoTab => TabView::NoTab,
        }
    }
}

impl View for Screen {
    type V = ScreenView;

    open spec fn view(&self) -> ScreenView {
        match self {
            Screen::PeerInputScreen { input, cursor_pos } => ScreenView::PeerInputScreen(input@, *cursor_pos),
            Screen::LoadingScreen { loading_text } => ScreenView::LoadingScreen(loading_text@),
            Screen::ConfirmScreen { prompt, options, idx } => ScreenView::ConfirmScreen(prompt@, texts_view(*options), *idx),
            Screen::NoScreen => ScreenView::NoScreen,
        }
    }
}

/// A key press as the interface's loop sees it: quitting, or any other key.
#[non_exhaustive]
#[derive(Debug, Clone, Copy, PartialEq, Eq)]
pub enum TuiCommand {
    Quit,
    Other(KeyInput),
}

/// The key press a command stands for: `q` for quitting.
pub fn get_key_event(cmd: TuiCommand) -> (key: KeyInput)
    ensures
        match cmd {
            TuiCommand::Quit => key == KeyInput::Char('q'),
            TuiCommand::Other(k) => key == k,
        },
{
    match cmd {
        TuiCommand::Quit => KeyInput::Char('q'),
        TuiCommand::Other(k) => k,
    }
}

/// The command a key press stands for: `q` quits.
pub fn get_tuicmd(key: KeyInput) -> (cmd: TuiCommand)
    ensures
        key == KeyInput::Char('q') ==> cmd == TuiCommand::Quit,
        key != KeyInput::Char('q') ==> cmd == TuiCommand::Other(key),
{
    match key {
        KeyInput::Char('q') => TuiCommand::Quit,
        _ => TuiCommand::Other(key),
    }
}

} // verus!
