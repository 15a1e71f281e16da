use vstd::prelude::*;

use crate::agent_server::{Connect, Message};

verus! {

/// A websocket session of a browser watching the relayed messages.
#[derive(Debug, Clone, PartialEq, Eq)]
pub struct Ws;

/// A frame received from the browser.
#[derive(Debug, Clone, PartialEq, Eq)]
pub enum WsFrame {
    Text(String),
    Binary(Vec<u8>),
    Ping(String),
    Pong(String),
    Close,
}

/// A frame the session writes back.
#[derive(Debug, Clone, PartialEq, Eq)]
pub enum WsReply {
    Text(String),
    Binary(Vec<u8>),
    Pong(String),
}

/// The answer to a received frame: text and binary frames are echoed,
/// a ping is answered by a pong with the same payload, anything else is
/// left unanswered.
pub open spec fn frame_answer(frame: WsFrame) -> Option<WsReply> {
    match frame {
        WsFrame::Ping(p) => Some(WsReply::Pong(p)),
        WsFrame::Text(t) => Some(WsReply::Text(t)),
        WsFrame::Binary(b) => Some(WsReply::Binary(b)),
        _ => None,
    }
}

impl Ws {
    /// When the session starts it asks the relay to connect it under `addr`.
    pub fn started(&self, addr: u64) -> (c: Connect)
        ensures
            c.addr == addr,
    {
        Connect { addr }
    }

    /// A message relayed to this session is written to the browser as text.
    pub fn handle_message(&self, msg: Message) -> (r: WsReply)
        ensures
            r == WsReply::Text(msg.0),
    {
        WsReply::Text(msg.0)
    }

    /// How the session answers a frame from the browser.
    pub fn handle_frame(&self, frame: WsFrame) -> (r: Option<WsReply>)
        ensures
            r == frame_answer(frame),
    {
        match frame {
            WsFrame::Ping(p) => Some(WsReply::Pong(p)),
            WsFrame::Text(t) => Some(WsReply::Text(t)),
            WsFrame::Binary(b) => Some(WsReply::Binary(b)),
            _ => None,
        }
    }
}

/// A session echoes what it is sent: a text or binary frame comes back
/// unchanged, a ping is answered with a pong carrying the same payload, and
/// pongs and close frames are never answered.
pub proof fn lemma_echo(t: String, b: Vec<u8>, p: String)
    ensures
        frame_answer(WsFrame::Text(t)) == Some(WsReply::Text(t)),
        frame_answer(WsFrame::Binary(b)) == Some(WsReply::Binary(b)),
        frame_answer(WsFrame::Ping(p)) == Some(WsReply::Pong(p)),
        frame_answer(WsFrame::Pong(p)) is None,
        frame_answer(WsFrame::Close) is None,
{
}

} // verus!
