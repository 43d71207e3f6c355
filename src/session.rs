//! One connection's session: it awaits credentials until they are accepted,
//! then relays chat messages until the client exits or the stream ends.
use vstd::prelude::*;
use vstd::utf8::encode_utf8;
use crate::auth::{auth_step, handle_credentials, name_view, reply_text};
use crate::chat::{chat_line, exit_command, on_chat_payload, ChatAction, ClockTime};
use crate::frame::terminator;
use crate::store::CredentialStore;
use crate::text::{credential_fields, lossy_text};

verus! {

/// Where a session stands.
pub enum SessionState {
    AwaitingCredentials,
    /// Authenticated under this display name.
    Chatting(String),
    Closed,
}

/// What the connection does after one event of its session.
pub enum SessionAction {
    /// Send these bytes to this connection only.
    Reply(Vec<u8>),
    /// Send these bytes to every live session, this one included.
    Broadcast(Vec<u8>),
    /// Send nothing and read on.
    Nothing,
    /// Send these bytes to this connection, then close it.
    ReplyAndClose(Vec<u8>),
    /// Close the connection without sending anything.
    Close,
}

pub open spec fn is_reply_of(a: &SessionAction, bytes: Seq<u8>) -> bool {
    match a {
        SessionAction::Reply(f) => f@ == bytes,
        _ => false,
    }
}

pub open spec fn is_final_reply_of(a: &SessionAction, bytes: Seq<u8>) -> bool {
    match a {
        SessionAction::ReplyAndClose(f) => f@ == bytes,
        _ => false,
    }
}

pub open spec fn is_broadcast_of(a: &SessionAction, bytes: Seq<u8>) -> bool {
    match a {
        SessionAction::Broadcast(f) => f@ == bytes,
        _ => false,
    }
}

/// The display name of a chatting session.
pub open spec fn chat_name(s: &SessionState) -> Option<Seq<char>> {
    match s {
        SessionState::Chatting(n) => Some(n@),
        _ => None,
    }
}

impl SessionState {
    pub fn new() -> (r: Self)
        ensures
            r is AwaitingCredentials,
    {
        SessionState::AwaitingCredentials
    }

    pub fn is_closed(&self) -> (r: bool)
        ensures
            r == self is Closed,
    {
        match self {
            SessionState::Closed => true,
            _ => false,
        }
    }

    /// Handles one received message. Before authentication it is a
    /// credential message and gets a reply; on success the session moves
    /// to chatting under the account's display name. While chatting, an
    /// empty message is skipped, the exit command is echoed and closes the
    /// session, and anything else is broadcast as a stamped chat line.
    pub fn on_message(&mut self, store: &mut CredentialStore, payload: &[u8]) -> (r: SessionAction)
        requires
            !((*old(self)) is Closed),
            old(store).wf(),
        ensures
            final(store).wf(),
            (*old(self)) is AwaitingCredentials ==> {
                let (reply, name, after) = auth_step(
                    old(store)@,
                    credential_fields(lossy_text(payload@)),
                );
                &&& final(store)@ == after
                &&& is_reply_of(&r, encode_utf8(reply_text(reply)) + terminator())
                &&& name is Some ==> chat_name(&*final(self)) == name
                &&& name is None ==> (*final(self)) is AwaitingCredentials
            },
            (*old(self)) is Chatting ==> {
                let msg = lossy_text(payload@);
                let name = chat_name(&*old(self))->0;
                &&& final(store)@ == old(store)@
                &&& msg.len() == 0 ==> r is Nothing && chat_name(&*final(self)) == chat_name(&*old(self))
                &&& msg.len() != 0 && msg == exit_command() ==> is_final_reply_of(
                    &r,
                    encode_utf8(exit_command()) + terminator(),
                ) && (*final(self)) is Closed
                &&& msg.len() != 0 && msg != exit_command() ==> chat_name(&*final(self)) == chat_name(&*old(self)) && exists|t: ClockTime|
                    t.wf() && is_broadcast_of(&r, chat_line(t, name, msg) + terminator())
            },
    {
        let action = match self {
            SessionState::Chatting(name) => on_chat_payload(name.as_str(), payload),
            _ => {
                let outcome = handle_credentials(store, payload);
                let frame = outcome.reply.to_frame();
                match outcome.display_name {
                    Some(n) => {
                        *self = SessionState::Chatting(n);
                    },
                    None => {},
                }
                return SessionAction::Reply(frame);
            },
        };
        match action {
            ChatAction::Ignore => SessionAction::Nothing,
            ChatAction::Exit(f) => {
                *self = SessionState::Closed;
                SessionAction::ReplyAndClose(f)
            },
            ChatAction::Broadcast(f) => SessionAction::Broadcast(f),
        }
    }

    /// A terminal read failure (reset, end of stream, any other error) ends
    /// the session, with nothing more sent.
    pub fn on_read_failure(&mut self) -> (r: SessionAction)
        ensures
            r is Close,
            (*final(self)) is Closed,
    {
        *self = SessionState::Closed;
        SessionAction::Close
    }
}

} // verus!
