//! What the daemon does with a command from its user interface, and what it answers.
use vstd::prelude::*;

use crate::comm::enums::{IPCCmd, IPCCmdView, IPCRes, IPCResView};
use crate::msg::PeerStatus;

verus! {

/// The work a command asks of the daemon.
#[derive(Debug, Clone, PartialEq, Eq)]
pub enum DaemonAction {
    /// Answer at once.
    Reply(IPCRes),
    /// Start the onion service, then answer [`IPCRes::ServerStarted`].
    StartServer,
    /// Connect to the peer at this address and port, then answer with [`connect_reply`].
    Connect(String, u16),
}

/// An action as plain values.
pub enum DaemonActionView {
    Reply(IPCResView),
    StartServer,
    Connect(Seq<char>, u16),
}

impl View for DaemonAction {
    type V = DaemonActionView;

    open spec fn view(&self) -> DaemonActionView {
        match self {
            DaemonAction::Reply(r) => DaemonActionView::Reply(r@),
            DaemonAction::StartServer => DaemonActionView::StartServer,
            DaemonAction::Connect(addr, port) => DaemonActionView::Connect(addr@, *port),
        }
    }
}

/// The action for a command: a tick is answered at once, the others need the network.
pub open spec fn cmd_action_spec(cmd: IPCCmdView) -> DaemonActionView {
    match cmd {
        IPCCmdView::Tick => DaemonActionView::Reply(IPCResView::Tock),
        IPCCmdView::StartServer => DaemonActionView::StartServer,
        IPCCmdView::Connect(addr, port) => DaemonActionView::Connect(addr, port),
    }
}

/// The action the daemon takes for a command.
pub fn cmd_action(cmd: IPCCmd) -> (a: DaemonAction)
    ensures
        a@ == cmd_action_spec(cmd@),
{
    match cmd {
        IPCCmd::Tick => DaemonAction::Reply(IPCRes::Tock),
        IPCCmd::StartServer => DaemonAction::StartServer,
        IPCCmd::Connect(addr, port) => DaemonAction::Connect(addr, port),
    }
}

/// "URL not found."
pub open spec fn not_found_text() -> Seq<char> {
    seq!['U', 'R', 'L', ' ', 'n', 'o', 't', ' ', 'f', 'o', 'u', 'n', 'd', '.']
}

/// The answer to a connection request: the address and port when the peer was reached, and
/// otherwise an error with the reason (the text of the failure, or that the peer was not found).
pub open spec fn connect_reply_spec(addr: Seq<char>, port: u16, outcome: Result<PeerStatus, Seq<char>>) -> IPCResView {
    match outcome {
        Ok(PeerStatus::Connected) => IPCResView::Connected(addr, port),
        Ok(PeerStatus::NotFound) => IPCResView::Error(not_found_text()),
        Err(reason) => IPCResView::Error(reason),
    }
}

pub open spec fn outcome_view(outcome: Result<PeerStatus, String>) -> Result<PeerStatus, Seq<char>> {
    match outcome {
        Ok(s) => Ok(s),
        Err(e) => Err(e@),
    }
}

/// The answer to a connection request to `peer_addr` and `port`, given how the attempt went
/// (the text of an error, when the address did not parse or the connection failed).
pub fn connect_reply(peer_addr: String, port: u16, outcome: Result<PeerStatus, String>) -> (r: IPCRes)
    ensures
        r@ == connect_reply_spec(peer_addr@, port, outcome_view(outcome)),
{
    match outcome {
        Ok(PeerStatus::Connected) => IPCRes::Connected(peer_addr, port),
        Ok(PeerStatus::NotFound) => {
            let text = "URL not found.".to_owned();
            proof {
                reveal_strlit("URL not found.");
            }
            assert(text@ =~= not_found_text());
            IPCRes::Error(text)
        },
        Err(reason) => IPCRes::Error(reason),
    }
}

/// How many failed reads in a row a peer connection tolerates before it gives up.
pub const READ_RETRIES: u8 = 5;

/// The failed reads a peer connection still tolerates after a read: all of them again after
/// a good read, one fewer after a failed one. At none the connection gives up.
pub fn retries_after_read(remaining: u8, read_ok: bool) -> (r: u8)
    ensures
        read_ok ==> r == READ_RETRIES,
        !read_ok ==> r == if remaining > 0 { (remaining - 1) as u8 } else { 0u8 },
{
    if read_ok {
        READ_RETRIES
    } else if remaining > 0 {
        remaining - 1
    } else {
        0
    }
}

/// A tick is answered at once with the tick's answer; starting the server and connecting are
/// handed on with their address and port unchanged.
pub proof fn lemma_commands_to_actions(addr: Seq<char>, port: u16)
    ensures
        cmd_action_spec(IPCCmdView::Tick) == DaemonActionView::Reply(IPCResView::Tock),
        cmd_action_spec(IPCCmdView::StartServer) == DaemonActionView::StartServer,
        cmd_action_spec(IPCCmdView::Connect(addr, port)) == DaemonActionView::Connect(addr, port),
{
}

/// A connection request is answered with its own address and port exactly when the peer was
/// reached; otherwise the answer is an error that gives the failure's text, or says that the
/// peer was not found.
pub proof fn lemma_connect_reply_cases(addr: Seq<char>, port: u16, outcome: Result<PeerStatus, Seq<char>>)
    ensures
        (connect_reply_spec(addr, port, outcome) is Connected) <==> outcome == Ok::<PeerStatus, Seq<char>>(PeerStatus::Connected),
        outcome == Ok::<PeerStatus, Seq<char>>(PeerStatus::Connected) ==> connect_reply_spec(addr, port, outcome)
            == IPCResView::Connected(addr, port),
        outcome == Ok::<PeerStatus, Seq<char>>(PeerStatus::NotFound) ==> connect_reply_spec(addr, port, outcome)
            == IPCResView::Error(seq!['U', 'R', 'L', ' ', 'n', 'o', 't', ' ', 'f', 'o', 'u', 'n', 'd', '.']),
        outcome is Err ==> connect_reply_spec(addr, port, outcome) == IPCResView::Error(outcome->Err_0),
{
}

} // verus!
