//! A websocket session on one board: who may join the board's room, and what
//! becomes of each message the client sends.
use vstd::prelude::*;
use crate::access::{can_read, may_read};
use crate::auth::{is_version4_uuid, new_uuid};
use crate::error::DbFailure;
use crate::ident::Oid;
use crate::records::Board;

verus! {

/// Whether `text` is a JSON document; the result of
/// `serde_json::from_str::<serde_json::Value>` being `Ok`.
pub uninterp spec fn json_parses(text: Seq<char>) -> bool;

/// Calls `serde_json::from_str::<serde_json::Value>` on the text. The
/// contract names its outcome: whether the text parses as JSON.
#[verifier::external_body]
fn is_json(text: &str) -> (ok: bool)
    ensures
        ok == json_parses(text@),
{
    serde_json::from_str::<serde_json::Value>(text).is_ok()
}

/// A message received from the client of a board session.
#[derive(Clone, Debug)]
pub enum WsMessage {
    Text(String),
    Close,
    /// Any other frame, or a protocol error.
    Other,
}

/// What a session does with a client message.
#[derive(Clone, Debug)]
pub enum SessionAction {
    /// Hand the JSON canvas operation to the board server.
    Forward(String),
    /// End the session.
    Stop,
    /// Drop the message.
    Ignore,
}

/// One client's websocket session on a board.
#[derive(Clone, Copy, Debug)]
pub struct BoardSession {
    pub id: u128,
    pub board_id: Oid,
    pub user_id: Oid,
}

impl BoardSession {
    /// A session of `user_id` on `board_id`, whose id is a fresh random
    /// version-4 UUID.
    pub fn new(board_id: Oid, user_id: Oid) -> (s: BoardSession)
        ensures
            s.board_id == board_id,
            s.user_id == user_id,
            is_version4_uuid(s.id),
    {
        BoardSession { id: new_uuid(), board_id, user_id }
    }

    /// Whether the session joins the board's room, from the lookup of the
    /// board when the session starts: the board must exist and the user may
    /// see it. Otherwise the session stops.
    pub fn admits(&self, lookup: &Result<Option<Board>, DbFailure>) -> (join: bool)
        ensures
            join == (lookup matches Ok(Some(b)) && may_read(b.owner_id, b.shared_with@, self.user_id)),
    {
        match lookup {
            Ok(Some(b)) => can_read(b.owner_id, &b.shared_with, self.user_id),
            _ => false,
        }
    }

    /// What the session does with a client message: JSON text is forwarded as
    /// a canvas operation, other text and frames are dropped, a close frame
    /// ends the session.
    pub fn on_message(&self, msg: WsMessage) -> (action: SessionAction)
        ensures
            action == message_action_of(msg, msg matches WsMessage::Text(t) && json_parses(t@)),
    {
        let json = match &msg {
            WsMessage::Text(t) => is_json(t.as_str()),
            _ => false,
        };
        message_action(msg, json)
    }
}

/// What a session does with `msg`, given whether it is JSON text.
pub open spec fn message_action_of(msg: WsMessage, is_json_text: bool) -> SessionAction {
    match msg {
        WsMessage::Text(t) => if is_json_text {
            SessionAction::Forward(t)
        } else {
            SessionAction::Ignore
        },
        WsMessage::Close => SessionAction::Stop,
        WsMessage::Other => SessionAction::Ignore,
    }
}

/// What a session does with a client message, given whether the message is
/// JSON text.
pub fn message_action(msg: WsMessage, is_json_text: bool) -> (action: SessionAction)
    ensures
        action == message_action_of(msg, is_json_text),
{
    match msg {
        WsMessage::Text(t) => if is_json_text {
            SessionAction::Forward(t)
        } else {
            SessionAction::Ignore
        },
        WsMessage::Close => SessionAction::Stop,
        WsMessage::Other => SessionAction::Ignore,
    }
}

} // verus!
