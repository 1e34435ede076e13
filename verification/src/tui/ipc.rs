//! How the terminal interface takes the daemon's responses.
use vstd::prelude::*;

use crate::comm::enums::{IPCRes, IPCResView};
use crate::tui::keys::{TuiState, TuiView};
use crate::tui::matches::{Screen, ScreenView};

verus! {

/// "Server Started."
pub open spec fn server_started_text() -> Seq<char> {
    seq!['S', 'e', 'r', 'v', 'e', 'r', ' ', 'S', 't', 'a', 'r', 't', 'e', 'd', '.']
}

/// "Connected."
pub open spec fn connected_text() -> Seq<char> {
    seq!['C', 'o', 'n', 'n', 'e', 'c', 't', 'e', 'd', '.']
}

/// What a response from the daemon does to the interface, and the notification it shows:
/// a started server or an error ends a loading screen, a connection ends any screen.
pub open spec fn response_step(v: TuiView, res: IPCResView) -> (TuiView, Option<Seq<char>>) {
    match res {
        IPCResView::ServerStarted => if v.screen is LoadingScreen {
            (TuiView { screen: ScreenView::NoScreen, ..v }, Some(server_started_text()))
        } else {
            (v, None)
        },
        IPCResView::Connected(_, _) => (TuiView { screen: ScreenView::NoScreen, ..v }, Some(connected_text())),
        IPCResView::Error(text) => (
            if v.screen is LoadingScreen {
                TuiView { screen: ScreenView::NoScreen, ..v }
            } else {
                v
            },
            Some(text),
        ),
        IPCResView::Tock => (v, None),
    }
}

/// The tick's answer changes nothing and shows nothing, whatever the screen.
pub proof fn lemma_tock_changes_nothing(v: TuiView)
    ensures
        response_step(v, IPCResView::Tock) == (v, Option::<Seq<char>>::None),
{
}

/// An error shows its text. It ends a loading screen, and leaves any other screen, an address
/// screen being typed in among them, as it was; nothing else changes.
pub proof fn lemma_error_ends_only_loading(v: TuiView, text: Seq<char>)
    ensures
        response_step(v, IPCResView::Error(text)).1 == Some(text),
        !(v.screen is LoadingScreen) ==> response_step(v, IPCResView::Error(text)).0 == v,
        v.screen is LoadingScreen ==> response_step(v, IPCResView::Error(text)).0 == (TuiView {
            screen: ScreenView::NoScreen,
            ..v
        }),
{
}

/// A response changes at most the screen, and only by closing it: only a started server, a
/// connection or an error closes a screen, and of these only a connection closes one that is
/// not a loading screen. A notification comes with every response but the tick's answer and a
/// started server that no loading screen waits for.
pub proof fn lemma_responses_only_close_screens(v: TuiView, res: IPCResView)
    ensures
        ({
            let (next, note) = response_step(v, res);
            &&& (TuiView { screen: v.screen, ..next }) == v
            &&& next.screen != v.screen ==> next.screen is NoScreen
            &&& next.screen != v.screen ==> (res is ServerStarted || res is Connected || res is Error)
            &&& !(v.screen is LoadingScreen) && !(res is Connected) ==> next == v
            &&& note is None <==> (res is Tock || (res is ServerStarted && !(v.screen is LoadingScreen)))
        }),
{
}

pub open spec fn opt_text_view(t: Option<String>) -> Option<Seq<char>> {
    match t {
        Some(s) => Some(s@),
        None => None,
    }
}

impl TuiState {
    fn on_loading_screen(&self) -> (b: bool)
        ensures
            b == (self@.screen is LoadingScreen),
    {
        match self.active_screen {
            Screen::LoadingScreen { .. } => true,
            _ => false,
        }
    }

    /// Takes a response from the daemon: changes the screen and returns the notification to
    /// show, if any.
    pub fn manage_ipc(&mut self, res: IPCRes) -> (notification: Option<String>)
        ensures
            (final(self)@, opt_text_view(notification)) == response_step(old(self)@, res@),
    {
        match res {
            IPCRes::ServerStarted => {
                if self.on_loading_screen() {
                    self.active_screen = Screen::NoScreen;
                    let text = "Server Started.".to_owned();
                    proof {
                        reveal_strlit("Server Started.");
                    }
                    assert(text@ =~= server_started_text());
                    Some(text)
                } else {
                    None
                }
            },
            IPCRes::Connected(_, _) => {
                self.active_screen = Screen::NoScreen;
                let text = "Connected.".to_owned();
                proof {
                    reveal_strlit("Connected.");
                }
                assert(text@ =~= connected_text());
                Some(text)
            },
            IPCRes::Error(text) => {
                if self.on_loading_screen() {
                    self.active_screen = Screen::NoScreen;
                }
                Some(text)
            },
            IPCRes::Tock => None,
        }
    }
}

} // verus!
