//! The protocol logic of the client, in terms of plain values: the connection
//! and its requests, pushed frames, rekeying, and the flows behind the user's
//! commands.
use vstd::prelude::*;

use crate::protocol::{Epoch, MessageId, ServerId, Timestamp, UserId};
use crate::text::text_of;

pub mod events;
pub mod flows;
pub mod login;
pub mod rekey;
pub mod session;

pub use self::flows::{
    create_server_flow, get_history_flow, join_server_flow, leave_server_flow, list_members_flow,
    list_servers_flow, register_flow, send_message_flow,
};
pub use self::login::login_flow;
pub use self::session::{expect_ok, rpc, send};

verus! {

/// A message for the user interface.
#[derive(Clone, Debug, PartialEq, Eq)]
pub struct UiMessage {
    pub server_id: ServerId,
    pub message_id: MessageId,
    pub sender_id: UserId,
    pub sender_name: String,
    pub epoch: Epoch,
    pub timestamp: Timestamp,
    /// The text, where it could be read.
    pub plaintext: Option<String>,
    /// One of `ok`, `sealed`, `bad_sig` and `decrypt_failed`.
    pub status: &'static str,
}

/// What a [`UiMessage`] says.
#[verifier::ext_equal]
pub struct ShownMessage {
    pub server_id: ServerId,
    pub message_id: MessageId,
    pub sender_id: UserId,
    pub sender_name: Seq<char>,
    pub epoch: Epoch,
    pub timestamp: Timestamp,
    pub plaintext: Option<Seq<char>>,
    pub status: Seq<char>,
}

impl View for UiMessage {
    type V = ShownMessage;

    open spec fn view(&self) -> ShownMessage {
        ShownMessage {
            server_id: self.server_id,
            message_id: self.message_id,
            sender_id: self.sender_id,
            sender_name: self.sender_name@,
            epoch: self.epoch,
            timestamp: self.timestamp,
            plaintext: text_of(self.plaintext),
            status: self.status@,
        }
    }
}

/// What the messages in a list say.
pub open spec fn shown_messages(list: Seq<UiMessage>) -> Seq<ShownMessage> {
    list.map_values(|message: UiMessage| message@)
}

/// A membership change for the user interface.
#[derive(Clone, Debug, PartialEq, Eq)]
pub struct UiMemberChange {
    pub server_id: ServerId,
    pub user_id: UserId,
    pub display_name: String,
    pub epoch: Epoch,
    /// `joined` or `left`.
    pub kind: &'static str,
}

/// The state of the connection for the user interface.
#[derive(Clone, Debug, PartialEq, Eq)]
pub struct UiConnState {
    /// One of `connecting`, `connected`, `authenticated` and `disconnected`.
    pub state: &'static str,
    pub detail: Option<String>,
}

impl UiConnState {
    /// A connection is being opened.
    pub fn connecting() -> (shown: UiConnState)
        ensures
            shown.state@ == "connecting"@,
            shown.detail is None,
    {
        UiConnState { state: "connecting", detail: None }
    }

    /// The connection to `url` is open.
    pub fn connected(url: String) -> (shown: UiConnState)
        ensures
            shown.state@ == "connected"@,
            shown.detail == Some(url),
    {
        UiConnState { state: "connected", detail: Some(url) }
    }

    /// The connection is gone.
    pub fn disconnected() -> (shown: UiConnState)
        ensures
            shown.state@ == "disconnected"@,
            shown.detail is None,
    {
        UiConnState { state: "disconnected", detail: None }
    }
}

/// Something to tell the user interface.
#[derive(Clone, Debug, PartialEq, Eq)]
pub enum UiEvent {
    NewMessage(UiMessage),
    MemberChange(UiMemberChange),
    KeyRotated { server_id: ServerId, epoch: Epoch },
}

/// What a [`UiEvent`] says.
#[verifier::ext_equal]
pub enum Notice {
    Message(ShownMessage),
    MemberChange {
        server_id: ServerId,
        user_id: UserId,
        display_name: Seq<char>,
        epoch: Epoch,
        kind: Seq<char>,
    },
    KeyRotated { server_id: ServerId, epoch: Epoch },
}

impl View for UiEvent {
    type V = Notice;

    open spec fn view(&self) -> Notice {
        match *self {
            UiEvent::NewMessage(message) => Notice::Message(message@),
            UiEvent::MemberChange(change) => Notice::MemberChange {
                server_id: change.server_id,
                user_id: change.user_id,
                display_name: change.display_name@,
                epoch: change.epoch,
                kind: change.kind@,
            },
            UiEvent::KeyRotated { server_id, epoch } => Notice::KeyRotated { server_id, epoch },
        }
    }
}

} // verus!
