//! The frames that client and relay exchange.
use vstd::prelude::*;

pub use crate::ids::{MessageId, ServerId, UserId};

verus! {

/// Numbers the membership changes of a server.
pub type Epoch = u64;

/// A moment in time: seconds and nanoseconds since the start of 1970, UTC.
#[derive(Clone, Copy, Debug, PartialEq, Eq)]
pub struct Timestamp {
    pub secs: i64,
    pub nanos: u32,
}

/// A registered user, as the relay knows them.
#[derive(Clone, Debug, PartialEq, Eq)]
pub struct UserRecord {
    pub user_id: UserId,
    pub display_name: String,
    pub kem_public_key: Vec<u8>,
    pub sig_public_key: Vec<u8>,
    pub created_at: Timestamp,
}

/// A member of a server, with the public keys that others need.
#[derive(Debug, PartialEq, Eq)]
pub struct MemberInfo {
    pub user_id: UserId,
    pub display_name: String,
    pub kem_public_key: Vec<u8>,
    pub sig_public_key: Vec<u8>,
}

/// What a [`MemberInfo`] says.
#[verifier::ext_equal]
pub struct Member {
    pub user_id: UserId,
    pub display_name: Seq<char>,
    pub kem_public_key: Seq<u8>,
    pub sig_public_key: Seq<u8>,
}

impl View for MemberInfo {
    type V = Member;

    open spec fn view(&self) -> Member {
        Member {
            user_id: self.user_id,
            display_name: self.display_name@,
            kem_public_key: self.kem_public_key@,
            sig_public_key: self.sig_public_key@,
        }
    }
}

impl Clone for MemberInfo {
    fn clone(&self) -> (copy: MemberInfo)
        ensures
            copy@ == self@,
    {
        MemberInfo {
            user_id: self.user_id,
            display_name: self.display_name.clone(),
            kem_public_key: self.kem_public_key.clone(),
            sig_public_key: self.sig_public_key.clone(),
        }
    }
}

/// What the members in a list say.
pub open spec fn members_of(list: Seq<MemberInfo>) -> Seq<Member> {
    list.map_values(|info: MemberInfo| info@)
}

/// A server in the relay's list.
#[derive(Clone, Debug, PartialEq, Eq)]
pub struct ServerInfo {
    pub server_id: ServerId,
    pub name: String,
    pub owner_id: UserId,
    pub member_count: usize,
}

/// A message in the relay's history.
#[derive(Clone, Debug, PartialEq, Eq)]
pub struct StoredMessage {
    pub message_id: MessageId,
    pub sender: UserId,
    pub epoch: Epoch,
    pub nonce: Vec<u8>,
    pub ciphertext: Vec<u8>,
    pub signature: Vec<u8>,
    pub timestamp: Timestamp,
}

/// A frame from the client to the relay. Binary fields are base64 text.
#[derive(Debug, PartialEq, Eq)]
pub enum ClientMessage {
    Register { display_name: String, kem_public_key: String, sig_public_key: String },
    AuthBegin { user_id: UserId },
    AuthFinish { signature: String },
    CreateServer { name: String },
    JoinServer { server_id: ServerId },
    LeaveServer { server_id: ServerId },
    DistributeKey {
        server_id: ServerId,
        target_user_id: UserId,
        epoch: Epoch,
        wrapped_key: String,
    },
    SendMessage {
        server_id: ServerId,
        epoch: Epoch,
        nonce: String,
        ciphertext: String,
        signature: String,
    },
    ListServers,
    ListMembers { server_id: ServerId },
    GetHistory { server_id: ServerId },
    LookupUser { user_id: UserId },
    Ping,
}

/// What a [`ClientMessage`] says.
#[verifier::ext_equal]
pub enum Request {
    Register { display_name: Seq<char>, kem_public_key: Seq<char>, sig_public_key: Seq<char> },
    AuthBegin { user_id: UserId },
    AuthFinish { signature: Seq<char> },
    CreateServer { name: Seq<char> },
    JoinServer { server_id: ServerId },
    LeaveServer { server_id: ServerId },
    DistributeKey {
        server_id: ServerId,
        target_user_id: UserId,
        epoch: Epoch,
        wrapped_key: Seq<char>,
    },
    SendMessage {
        server_id: ServerId,
        epoch: Epoch,
        nonce: Seq<char>,
        ciphertext: Seq<char>,
        signature: Seq<char>,
    },
    ListServers,
    ListMembers { server_id: ServerId },
    GetHistory { server_id: ServerId },
    LookupUser { user_id: UserId },
    Ping,
}

impl View for ClientMessage {
    type V = Request;

    open spec fn view(&self) -> Request {
        match *self {
            ClientMessage::Register { display_name, kem_public_key, sig_public_key } => {
                Request::Register {
                    display_name: display_name@,
                    kem_public_key: kem_public_key@,
                    sig_public_key: sig_public_key@,
                }
            },
            ClientMessage::AuthBegin { user_id } => Request::AuthBegin { user_id },
            ClientMessage::AuthFinish { signature } => {
                Request::AuthFinish { signature: signature@ }
            },
            ClientMessage::CreateServer { name } => Request::CreateServer { name: name@ },
            ClientMessage::JoinServer { server_id } => Request::JoinServer { server_id },
            ClientMessage::LeaveServer { server_id } => Request::LeaveServer { server_id },
            ClientMessage::DistributeKey { server_id, target_user_id, epoch, wrapped_key } => {
                Request::DistributeKey {
                    server_id,
                    target_user_id,
                    epoch,
                    wrapped_key: wrapped_key@,
                }
            },
            ClientMessage::SendMessage { server_id, epoch, nonce, ciphertext, signature } => {
                Request::SendMessage {
                    server_id,
                    epoch,
                    nonce: nonce@,
                    ciphertext: ciphertext@,
                    signature: signature@,
                }
            },
            ClientMessage::ListServers => Request::ListServers,
            ClientMessage::ListMembers { server_id } => Request::ListMembers { server_id },
            ClientMessage::GetHistory { server_id } => Request::GetHistory { server_id },
            ClientMessage::LookupUser { user_id } => Request::LookupUser { user_id },
            ClientMessage::Ping => Request::Ping,
        }
    }
}

/// What the frames in a list say.
pub open spec fn requests_of(list: Seq<ClientMessage>) -> Seq<Request> {
    list.map_values(|message: ClientMessage| message@)
}

/// A frame from the relay to the client. Binary fields of pushed frames are
/// base64 text.
#[derive(Clone, Debug, PartialEq, Eq)]
pub enum ServerMessage {
    Registered { user_id: UserId },
    AuthChallenge { nonce: String },
    Authenticated { user_id: UserId },
    Error { reason: String },
    ServerCreated { server_id: ServerId, epoch: Epoch },
    ServerJoined { server_id: ServerId, epoch: Epoch, members: Vec<MemberInfo> },
    ServerLeft { server_id: ServerId },
    MemberJoined { server_id: ServerId, member: MemberInfo, epoch: Epoch },
    MemberLeft { server_id: ServerId, user_id: UserId, epoch: Epoch },
    KeyMaterial { server_id: ServerId, from_user: UserId, epoch: Epoch, wrapped_key: String },
    NewMessage {
        server_id: ServerId,
        message_id: MessageId,
        sender: UserId,
        epoch: Epoch,
        nonce: String,
        ciphertext: String,
        signature: String,
        timestamp: Timestamp,
    },
    History { server_id: ServerId, messages: Vec<StoredMessage> },
    ServerList { servers: Vec<ServerInfo> },
    MemberList { server_id: ServerId, members: Vec<MemberInfo> },
    UserInfo { user: UserRecord },
    Pong,
}

/// Whether the relay pushes this frame on its own account.
pub open spec fn is_pushed(message: ServerMessage) -> bool {
    ||| message is MemberJoined
    ||| message is MemberLeft
    ||| message is KeyMaterial
    ||| message is NewMessage
}

impl ServerMessage {
    /// True for frames that the relay pushes on its own account, false for
    /// replies to a request.
    pub fn is_event(&self) -> (pushed: bool)
        ensures
            pushed == is_pushed(*self),
    {
        matches!(
            self,
            ServerMessage::MemberJoined { .. }
                | ServerMessage::MemberLeft { .. }
                | ServerMessage::KeyMaterial { .. }
                | ServerMessage::NewMessage { .. }
        )
    }
}

} // verus!
