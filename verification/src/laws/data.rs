//! What the basic types and their models say.
use vstd::prelude::*;
use vstd::utf8::*;

use crate::client::events::{Dispatch, EventOutcome, Verdict};
use crate::client::rekey::Outbox;
use crate::client::session::{RpcStart, Started};
use crate::client::{shown_messages, Notice, UiEvent, UiMessage};
use crate::commands::{shows, IdentityView};
use crate::encoding::{base64_decoded, base64_encoded, Decoded};
use crate::error::{outcome, ChatError, Messages};
use crate::identity::{renumbered, stands_for, Identity};
use crate::ids::{hex_char, hex_digit, id_text};
use crate::protocol::{
    members_of, requests_of, ClientMessage, Epoch, Member, MemberInfo, Request, ServerId, UserId,
};
use crate::state::{lists_once, next_number, Channel, ChannelView, Client, ClientState};
use crate::text::{decimal_text, digit_text, joined, occurs_in, texts, utf8_text};

verus! {

// ----------------------------------------------------------------------------
// Text
// ----------------------------------------------------------------------------

/// The number that a text of decimal digits stands for.
pub open spec fn decimal_value(text: Seq<char>) -> int
    decreases text.len(),
{
    if text.len() == 0 {
        0
    } else {
        10 * decimal_value(text.drop_last()) + (text.last() as int - '0' as int)
    }
}

/// The text of a digit is the one character of that value.
proof fn lemma_digit_text(d: nat)
    requires
        d < 10,
    ensures
        digit_text(d).len() == 1,
        digit_text(d)[0] as int == '0' as int + d,
{
    reveal_strlit("0");
    reveal_strlit("1");
    reveal_strlit("2");
    reveal_strlit("3");
    reveal_strlit("4");
    reveal_strlit("5");
    reveal_strlit("6");
    reveal_strlit("7");
    reveal_strlit("8");
    reveal_strlit("9");
}

/// A number written in decimal reads back as that number, and has no leading zero
/// but for zero itself.
pub proof fn law_decimals_read_back(n: nat)
    ensures
        decimal_value(decimal_text(n)) == n,
        decimal_text(n).len() > 0,
        forall|i: int|
            0 <= i < decimal_text(n).len() ==> '0' <= #[trigger] decimal_text(n)[i] <= '9',
        n > 0 ==> decimal_text(n)[0] != '0',
        n < 10 ==> decimal_text(n).len() == 1,
    decreases n,
{
    let text = decimal_text(n);
    if n < 10 {
        lemma_digit_text(n);
        assert(text.drop_last() =~= Seq::<char>::empty());
        assert(decimal_value(text.drop_last()) == 0);
    } else {
        law_decimals_read_back(n / 10);
        lemma_digit_text(n % 10);
        assert(text.drop_last() =~= decimal_text(n / 10));
        assert(text[0] == decimal_text(n / 10)[0]);
    }
}

/// One text joined is itself, none is the empty text, and joining two lists puts
/// the separator between what the one and the other join to.
pub proof fn law_joining(
    a: Seq<Seq<char>>,
    b: Seq<Seq<char>>,
    part: Seq<char>,
    separator: Seq<char>,
)
    ensures
        joined(Seq::empty(), separator) == Seq::<char>::empty(),
        joined(seq![part], separator) == part,
        a.len() > 0 && b.len() > 0 ==> joined(a + b, separator) == joined(a, separator) + separator
            + joined(b, separator),
    decreases b.len(),
{
    if a.len() > 0 && b.len() > 0 {
        assert((a + b).drop_last() =~= a + b.drop_last());
        if b.len() == 1 {
            assert(a + b.drop_last() =~= a);
        } else {
            law_joining(a, b.drop_last(), part, separator);
            assert(joined(a + b, separator) =~= joined(a, separator) + separator + joined(
                b,
                separator,
            ));
        }
    }
}

/// A text occurs in another exactly when the other is it with something before and
/// something behind, each possibly empty.
pub proof fn law_occurring(needle: Seq<char>, haystack: Seq<char>)
    ensures
        occurs_in(needle, haystack) <==> exists|before: Seq<char>, behind: Seq<char>|
            haystack == #[trigger] (before + needle + behind),
{
    let m = needle.len() as int;
    if occurs_in(needle, haystack) {
        let i = choose|i: int|
            0 <= i <= haystack.len() - m && #[trigger] haystack.subrange(i, i + m) == needle;
        assert(haystack =~= haystack.take(i) + needle + haystack.skip(i + m));
    }
    if exists|before: Seq<char>, behind: Seq<char>|
        haystack == #[trigger] (before + needle + behind) {
        let (before, behind) = choose|before: Seq<char>, behind: Seq<char>|
            haystack == #[trigger] (before + needle + behind);
        let i = before.len() as int;
        assert(haystack.subrange(i, i + m) =~= needle);
    }
}

/// The bytes of a text decode to that text, and bytes that decode are the bytes of
/// what they decode to.
pub proof fn law_utf8_round_trip(text: Seq<char>, bytes: Seq<u8>)
    ensures
        utf8_text(encode_utf8(text)) == Some(text),
        utf8_text(bytes) is Some <==> valid_utf8(bytes),
        utf8_text(bytes) matches Some(decoded) ==> encode_utf8(decoded) == bytes,
{
    encode_utf8_valid_utf8(text);
    encode_utf8_decode_utf8(text);
    if valid_utf8(bytes) {
        decode_utf8_encode_utf8(bytes);
    }
}

/// The notation of an identifier has 36 characters, with hyphens behind the 8th,
/// 12th, 16th and 20th of its 32 digits.
pub proof fn law_identifiers_are_written_with_hyphens(id: u128)
    ensures
        id_text(id).len() == 36,
        id_text(id)[8] == '-',
        id_text(id)[13] == '-',
        id_text(id)[18] == '-',
        id_text(id)[23] == '-',
        forall|k: int|
            0 <= k < 32 ==> id_text(id)[if k < 8 {
                k
            } else if k < 12 {
                k + 1
            } else if k < 16 {
                k + 2
            } else if k < 20 {
                k + 3
            } else {
                k + 4
            }] == #[trigger] hex_digit(id, k),
        forall|k: int|
            0 <= k < 32 ==> #[trigger] hex_digit(id, k) == hex_char(
                (id >> ((4 * (31 - k)) as u128)) & 0xf,
            ),
        forall|d: u128|
            d < 16 ==> (#[trigger] hex_char(d)) as int == if d < 10 {
                '0' as int + d
            } else {
                'a' as int + d - 10
            },
{
}

// ----------------------------------------------------------------------------
// Models
// ----------------------------------------------------------------------------

/// The lists of models hold one model for each element, in its place.
pub proof fn law_lists_are_modelled_one_by_one(
    strings: Seq<String>,
    members: Seq<MemberInfo>,
    frames: Seq<ClientMessage>,
    messages: Seq<UiMessage>,
)
    ensures
        texts(strings).len() == strings.len(),
        forall|i: int| 0 <= i < strings.len() ==> #[trigger] texts(strings)[i] == strings[i]@,
        members_of(members).len() == members.len(),
        forall|i: int|
            0 <= i < members.len() ==> #[trigger] members_of(members)[i] == members[i]@,
        requests_of(frames).len() == frames.len(),
        forall|i: int| 0 <= i < frames.len() ==> #[trigger] requests_of(frames)[i] == frames[i]@,
        shown_messages(messages).len() == messages.len(),
        forall|i: int|
            0 <= i < messages.len() ==> #[trigger] shown_messages(messages)[i] == messages[i]@,
{
}

/// The model of a member says what its fields say.
pub proof fn law_a_member_is_its_fields(info: MemberInfo)
    ensures
        info@.user_id == info.user_id,
        info@.display_name == info.display_name@,
        info@.kem_public_key == info.kem_public_key@,
        info@.sig_public_key == info.sig_public_key@,
{
}

/// The model of a frame is of the same sort and says what its fields say.
pub proof fn law_a_frame_is_its_fields(frame: ClientMessage)
    ensures
        match frame {
            ClientMessage::Register { display_name, kem_public_key, sig_public_key } => frame@
                == (Request::Register {
                display_name: display_name@,
                kem_public_key: kem_public_key@,
                sig_public_key: sig_public_key@,
            }),
            ClientMessage::AuthBegin { user_id } => frame@ == (Request::AuthBegin { user_id }),
            ClientMessage::AuthFinish { signature } => frame@ == (Request::AuthFinish {
                signature: signature@,
            }),
            ClientMessage::CreateServer { name } => frame@ == (Request::CreateServer {
                name: name@,
            }),
            ClientMessage::JoinServer { server_id } => frame@ == (Request::JoinServer {
                server_id,
            }),
            ClientMessage::LeaveServer { server_id } => frame@ == (Request::LeaveServer {
                server_id,
            }),
            ClientMessage::DistributeKey { server_id, target_user_id, epoch, wrapped_key } => frame@
                == (Request::DistributeKey {
                server_id,
                target_user_id,
                epoch,
                wrapped_key: wrapped_key@,
            }),
            ClientMessage::SendMessage { server_id, epoch, nonce, ciphertext, signature } => frame@
                == (Request::SendMessage {
                server_id,
                epoch,
                nonce: nonce@,
                ciphertext: ciphertext@,
                signature: signature@,
            }),
            ClientMessage::ListServers => frame@ == Request::ListServers,
            ClientMessage::ListMembers { server_id } => frame@ == (Request::ListMembers {
                server_id,
            }),
            ClientMessage::GetHistory { server_id } => frame@ == (Request::GetHistory {
                server_id,
            }),
            ClientMessage::LookupUser { user_id } => frame@ == (Request::LookupUser { user_id }),
            ClientMessage::Ping => frame@ == Request::Ping,
        },
{
}

/// The model of a channel holds its epoch and name, and of each user and each
/// epoch exactly what the channel holds.
pub proof fn law_a_channel_is_its_fields(channel: ChannelView, user: UserId, epoch: Epoch)
    ensures
        channel@.epoch == channel.epoch,
        channel@.name == channel.name@,
        channel@.members.contains_key(user) <==> channel.members@.contains_key(user),
        channel.members@.contains_key(user) ==> channel@.members[user]
            == channel.members@[user]@,
        channel@.keys.contains_key(epoch) <==> channel.keys@.contains_key(epoch),
        channel.keys@.contains_key(epoch) ==> channel@.keys[epoch] == channel.keys@[epoch]@,
{
}

/// The model of the state holds its fields, and of each server exactly what the
/// state holds.
pub proof fn law_a_state_is_its_fields(state: ClientState, server_id: ServerId)
    ensures
        state@.identity == state.identity,
        state@.connected == state.connected,
        state@.session == state.session,
        state@.pending_rpc == state.pending_rpc,
        state@.last_rpc == state.last_rpc,
        state@.channels.contains_key(server_id) <==> state.channels@.contains_key(server_id),
        state.channels@.contains_key(server_id) ==> state@.channels[server_id]
            == state.channels@[server_id]@,
{
}

/// The model of a message for the user interface says what its fields say.
pub proof fn law_a_shown_message_is_its_fields(message: UiMessage)
    ensures
        message@.server_id == message.server_id,
        message@.message_id == message.message_id,
        message@.sender_id == message.sender_id,
        message@.sender_name == message.sender_name@,
        message@.epoch == message.epoch,
        message@.timestamp == message.timestamp,
        match message.plaintext {
            Some(text) => message@.plaintext == Some(text@),
            None => message@.plaintext is None,
        },
        message@.status == message.status@,
{
}

/// The model of an event for the user interface is of the same sort and says what
/// its fields say.
pub proof fn law_a_notice_is_its_fields(event: UiEvent)
    ensures
        match event {
            UiEvent::NewMessage(message) => event@ == Notice::Message(message@),
            UiEvent::MemberChange(change) => event@ == (Notice::MemberChange {
                server_id: change.server_id,
                user_id: change.user_id,
                display_name: change.display_name@,
                epoch: change.epoch,
                kind: change.kind@,
            }),
            UiEvent::KeyRotated { server_id, epoch } => event@ == (Notice::KeyRotated {
                server_id,
                epoch,
            }),
        },
{
}

/// The models of what is to be sent, shown and answered say what the values say.
pub proof fn law_outcomes_are_their_fields(
    start: RpcStart,
    outbox: Outbox,
    result: EventOutcome,
    dispatch: Dispatch,
)
    ensures
        match start {
            RpcStart::Go { request, frame } => start@ == (Started::Go { request, frame: frame@ })
                && start@.request() == frame@,
            RpcStart::Wait(frame) => start@ == Started::Wait(frame@) && start@.request() == frame@,
        },
        outbox@.frames == requests_of(outbox.frames@),
        match outbox.failure {
            Some(error) => outbox@.failure == Some(error@),
            None => outbox@.failure is None,
        },
        match result.ui {
            Some(event) => result@.shown == Some(event@),
            None => result@.shown is None,
        },
        result@.out == result.outbox@,
        match dispatch {
            Dispatch::Event(effects) => dispatch@ == Verdict::Event(effects@),
            Dispatch::Reply(request, message) => dispatch@ == Verdict::Reply(request, message),
            Dispatch::ClientError(reason) => dispatch@ == Verdict::ClientError(reason@),
            Dispatch::Ignored => dispatch@ is Ignored,
            Dispatch::Replaced => dispatch@ is Replaced,
        },
{
}

/// An outcome is the value's model or the error's messages.
pub proof fn law_outcomes_tell_values_from_errors(
    value: Vec<u8>,
    error: ChatError,
)
    ensures
        outcome(Ok::<Vec<u8>, ChatError>(value)) == Ok::<Seq<u8>, Messages>(value@),
        outcome(Err::<Vec<u8>, ChatError>(error)) == Err::<Seq<u8>, Messages>(error@),
{
}

/// A text stands for bytes when it is their base64 and decodes to them; an identity
/// under another identifier keeps its name and its keys.
pub proof fn law_identities_and_their_texts(
    text: Seq<char>,
    bytes: Seq<u8>,
    identity: Identity,
    user_id: UserId,
)
    ensures
        stands_for(text, bytes) <==> text == base64_encoded(bytes) && base64_decoded(text)
            == Decoded::Ok(bytes),
        renumbered(identity, user_id).user_id == user_id,
        renumbered(identity, user_id).display_name == identity.display_name,
        renumbered(identity, user_id).kem_pk_b64 == identity.kem_pk_b64,
        renumbered(identity, user_id).kem_sk_b64 == identity.kem_sk_b64,
        renumbered(identity, user_id).sig_pk_b64 == identity.sig_pk_b64,
        renumbered(identity, user_id).sig_sk_b64 == identity.sig_sk_b64,
{
}

/// What the user interface is shown of an identity is its identifier in the usual
/// notation, its name and its two public keys, each in its place.
pub proof fn law_an_identity_is_shown_by_its_public_parts(view: IdentityView, identity: Identity)
    requires
        shows(view, identity),
    ensures
        view.user_id@ == id_text(identity.user_id),
        view.display_name@ == identity.display_name@,
        view.kem_pk_b64@ == identity.kem_pk_b64@,
        view.sig_pk_b64@ == identity.sig_pk_b64@,
{
}

// ----------------------------------------------------------------------------
// Changes of a channel and of a client
// ----------------------------------------------------------------------------

/// Each change of a channel changes one thing and leaves the others.
pub proof fn law_changes_of_a_channel(
    channel: Channel,
    epoch: Epoch,
    name: Seq<char>,
    member: Member,
    user_id: UserId,
    key: Seq<u8>,
)
    ensures
        channel.at_epoch(epoch) == (Channel { epoch, ..channel }),
        channel.named(name) == (Channel { name, ..channel }),
        channel.with_member(member) == (Channel {
            members: channel.members.insert(member.user_id, member),
            ..channel
        }),
        channel.without_member(user_id) == (Channel {
            members: channel.members.remove(user_id),
            ..channel
        }),
        channel.with_key(epoch, key) == (Channel {
            keys: channel.keys.insert(epoch, key),
            ..channel
        }),
        channel.without_keys() == (Channel { keys: Map::empty(), ..channel }),
        Channel::unknown().members == Map::<UserId, Member>::empty(),
        Channel::unknown().keys == Map::<Epoch, Seq<u8>>::empty(),
        Channel::unknown().epoch == 0,
        Channel::unknown().name.len() == 0,
        channel.holds_earlier_key() <==> exists|e: Epoch|
            e < channel.epoch && #[trigger] channel.keys.contains_key(e),
{
}

/// What a client knows of a server is its channel, or nothing; replacing a channel
/// or the identity leaves everything else.
pub proof fn law_changes_of_a_client(
    client: Client,
    server_id: ServerId,
    epoch: Epoch,
    channel: Channel,
    identity: Option<Identity>,
)
    ensures
        client.channels.contains_key(server_id) ==> client.channel(server_id)
            == client.channels[server_id],
        !client.channels.contains_key(server_id) ==> client.channel(server_id)
            == Channel::unknown(),
        client.with_channel(server_id, channel) == (Client {
            channels: client.channels.insert(server_id, channel),
            ..client
        }),
        client.with_identity(identity) == (Client { identity, ..client }),
        client.holds_key(server_id, epoch) <==> client.channels.contains_key(server_id)
            && client.channels[server_id].keys.contains_key(epoch),
{
}

/// A list that goes through a set holds its elements, each at one place, and
/// nothing else.
pub proof fn law_a_walk_visits_everything_once(order: Seq<u128>, set: Set<u128>)
    requires
        lists_once(order, set),
    ensures
        forall|i: int| 0 <= i < order.len() ==> set.contains(#[trigger] order[i]),
        forall|x: u128| #[trigger] set.contains(x) ==> order.contains(x),
        forall|i: int, j: int| 0 <= i < j < order.len() ==> order[i] != order[j],
{
    assert forall|i: int| 0 <= i < order.len() implies set.contains(#[trigger] order[i]) by {
        assert(order.to_set().contains(order[i]));
    }
    assert forall|x: u128| #[trigger] set.contains(x) implies order.contains(x) by {
        assert(order.to_set().contains(x));
    }
}

/// Numbers count up by one, and start over behind the last.
pub proof fn law_numbers_count_up(n: u64)
    ensures
        n < u64::MAX ==> next_number(n) == n + 1,
        n == u64::MAX ==> next_number(n) == 0,
{
}

} // verus!
