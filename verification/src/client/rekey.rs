//! Rekeying after a membership change.
//!
//! Every client sees the same change, and one of them has to make the group key
//! of the new epoch. It is the member with the lowest identifier, the joiner
//! aside, who has no earlier key. Everyone else waits for the key to arrive.
use std::collections::HashMap;
use vstd::prelude::*;

use crate::client::session::send;
use crate::crypto::{
    bad_recipient, random_group_key, wrap_group_key_for, wraps_for, GroupKey,
    KYBER_PUBLIC_KEY_BYTES,
};
use crate::encoding::base64_encode;
use crate::error::{ChatError, Messages};
use crate::identity::stands_for;
use crate::ids::{id_text, uuid_text};
use crate::protocol::{
    members_of, requests_of, ClientMessage, Epoch, Member, MemberInfo, Request, ServerId, UserId,
};
use crate::state::{lists_once, walk, Client, ClientState};
use crate::text::followed_by;

verus! {

// ----------------------------------------------------------------------------
// Election
// ----------------------------------------------------------------------------

/// The members that may make the new key: all but the joiner.
pub open spec fn entitled(members: Set<UserId>, joiner: Option<UserId>) -> Set<UserId> {
    match joiner {
        Some(joiner) => members.remove(joiner),
        None => members,
    }
}

/// Whether `user` makes the new key: the lowest of the entitled members.
pub open spec fn elected(members: Set<UserId>, joiner: Option<UserId>, user: UserId) -> bool {
    &&& entitled(members, joiner).contains(user)
    &&& forall|other: UserId| #[trigger]
        entitled(members, joiner).contains(other) ==> user <= other
}

/// Finds the member that makes the new key; there is one unless nobody is
/// entitled.
pub fn lowest_entitled(members: &HashMap<UserId, MemberInfo>, joiner: Option<UserId>) -> (lowest:
    Option<UserId>)
    ensures
        match lowest {
            Some(user) => elected(members@.dom(), joiner, user),
            None => entitled(members@.dom(), joiner) == Set::<UserId>::empty(),
        },
{
    let order = walk(members);
    let mut lowest: Option<UserId> = None;
    let mut i: usize = 0;
    while i < order.len()
        invariant
            i <= order.len(),
            lists_once(order@, members@.dom()),
            match lowest {
                Some(user) => {
                    &&& entitled(members@.dom(), joiner).contains(user)
                    &&& forall|j: int|
                        0 <= j < i && joiner != Some(#[trigger] order@[j]) ==> user <= order@[j]
                },
                None => forall|j: int| 0 <= j < i ==> joiner == Some(#[trigger] order@[j]),
            },
        decreases order.len() - i,
    {
        let user: UserId = order[i];
        assert(order@.to_set().contains(user));
        let is_joiner = match joiner {
            Some(joiner) => joiner == user,
            None => false,
        };
        if !is_joiner {
            lowest = match lowest {
                Some(best) => if user < best {
                    Some(user)
                } else {
                    Some(best)
                },
                None => Some(user),
            };
        }
        i += 1;
    }
    proof {
        assert forall|user: UserId| #[trigger]
            entitled(members@.dom(), joiner).contains(user) implies joiner != Some(user) && exists|
            j: int,
        |
            0 <= j < order@.len() && order@[j] == user by {
            assert(order@.to_set().contains(user));
        }
        if lowest is None {
            assert(entitled(members@.dom(), joiner) =~= Set::<UserId>::empty());
        }
    }
    lowest
}

/// At most one member is elected: clients that agree on the members agree on
/// who makes the key.
pub proof fn law_one_member_is_elected(
    members: Set<UserId>,
    joiner: Option<UserId>,
    a: UserId,
    b: UserId,
)
    requires
        elected(members, joiner, a),
        elected(members, joiner, b),
    ensures
        a == b,
{
}

/// Where a member is left besides the joiner, some member is elected.
pub proof fn law_someone_is_elected(members: Set<UserId>, joiner: Option<UserId>)
    requires
        entitled(members, joiner) != Set::<UserId>::empty(),
    ensures
        exists|user: UserId| elected(members, joiner, user),
{
    let candidates = entitled(members, joiner);
    let some = candidates.choose();
    assert(candidates.contains(some)) by {
        if candidates.is_empty() {
            assert(candidates =~= Set::<UserId>::empty());
        }
    }
    lemma_lowest_exists(candidates, some);
    let lowest = choose|lowest: UserId|
        candidates.contains(lowest) && forall|other: UserId| #[trigger]
            candidates.contains(other) ==> lowest <= other;
    assert(elected(members, joiner, lowest));
}

/// A non-empty set of identifiers has a lowest one.
proof fn lemma_lowest_exists(candidates: Set<UserId>, some: UserId)
    requires
        candidates.contains(some),
    ensures
        exists|lowest: UserId|
            candidates.contains(lowest) && forall|other: UserId| #[trigger]
                candidates.contains(other) ==> lowest <= other,
    decreases some,
{
    if exists|other: UserId| candidates.contains(other) && other < some {
        let other = choose|other: UserId| candidates.contains(other) && other < some;
        lemma_lowest_exists(candidates, other);
    } else {
        assert(candidates.contains(some) && forall|other: UserId| #[trigger]
            candidates.contains(other) ==> some <= other);
    }
}

/// The joiner is never elected, nor is anyone who is not a member.
pub proof fn law_only_earlier_members_are_elected(
    members: Set<UserId>,
    joiner: Option<UserId>,
    user: UserId,
)
    requires
        elected(members, joiner, user),
    ensures
        members.contains(user),
        joiner != Some(user),
{
}

// ----------------------------------------------------------------------------
// Distribution
// ----------------------------------------------------------------------------

/// The members of a list other than `me`.
pub open spec fn others(list: Seq<Member>, me: UserId) -> Seq<Member>
    decreases list.len(),
{
    if list.len() == 0 {
        Seq::empty()
    } else if list.last().user_id == me {
        others(list.drop_last(), me)
    } else {
        others(list.drop_last(), me).push(list.last())
    }
}

/// Whether the base64 text `wrapped_key` carries `key` to the owner of the Kyber
/// public key `pk`.
pub open spec fn delivers(pk: Seq<u8>, key: Seq<u8>, wrapped_key: Seq<char>) -> bool {
    exists|wrapped: Seq<u8>| #[trigger]
        wraps_for(pk, key, wrapped) && stands_for(wrapped_key, wrapped)
}

/// Whether the frame brings `key` to `target` as the key of an epoch of a server.
pub open spec fn brings_key(
    frame: Request,
    server_id: ServerId,
    epoch: Epoch,
    key: Seq<u8>,
    target: Member,
) -> bool {
    match frame {
        Request::DistributeKey { server_id: server, target_user_id, epoch: at, wrapped_key } => {
            &&& server == server_id
            &&& target_user_id == target.user_id
            &&& at == epoch
            &&& delivers(target.kem_public_key, key, wrapped_key)
        },
        _ => false,
    }
}

/// Why no key can be sent to `target`, if so.
pub open spec fn obstacle(connected: bool, target: Member) -> Option<Messages> {
    if target.kem_public_key.len() != KYBER_PUBLIC_KEY_BYTES {
        Some(
            seq!["wrapping for "@ + id_text(target.user_id)] + bad_recipient(target.kem_public_key),
        )
    } else if !connected {
        Some(seq!["not connected"@])
    } else {
        None
    }
}

/// Frames for sending, and what stopped further ones.
pub struct Outbox {
    pub frames: Vec<ClientMessage>,
    pub failure: Option<ChatError>,
}

/// What an [`Outbox`] says.
#[verifier::ext_equal]
pub struct Outgoing {
    pub frames: Seq<Request>,
    pub failure: Option<Messages>,
}

impl View for Outbox {
    type V = Outgoing;

    open spec fn view(&self) -> Outgoing {
        Outgoing {
            frames: requests_of(self.frames@),
            failure: match self.failure {
                Some(error) => Some(error@),
                None => None,
            },
        }
    }
}

impl Outgoing {
    /// Nothing to send, and no failure.
    pub open spec fn nothing() -> Outgoing {
        Outgoing { frames: Seq::empty(), failure: None }
    }

    /// Nothing to send because of a failure.
    pub open spec fn failed(messages: Messages) -> Outgoing {
        Outgoing { frames: Seq::empty(), failure: Some(messages) }
    }
}

/// Whether `key` went out to the members `to` in their order: one frame for each
/// of them, up to the first that there is an obstacle for, which is reported.
pub open spec fn distributed(
    connected: bool,
    server_id: ServerId,
    epoch: Epoch,
    key: Seq<u8>,
    to: Seq<Member>,
    out: Outgoing,
) -> bool {
    let n = out.frames.len();
    &&& n <= to.len()
    &&& forall|i: int|
        0 <= i < n ==> obstacle(connected, #[trigger] to[i]) is None && brings_key(
            out.frames[i],
            server_id,
            epoch,
            key,
            to[i],
        )
    &&& match out.failure {
        Some(messages) => n < to.len() && obstacle(connected, to[n as int]) == Some(messages),
        None => n == to.len(),
    }
}

/// The others among the first members of a list come first among the others of
/// the list.
proof fn lemma_others_prefix(list: Seq<Member>, me: UserId, i: int)
    requires
        0 <= i <= list.len(),
    ensures
        others(list.take(i), me).len() <= others(list, me).len(),
        others(list, me).take(others(list.take(i), me).len() as int) == others(list.take(i), me),
    decreases list.len() - i,
{
    if i == list.len() {
        assert(list.take(i) =~= list);
        assert(others(list, me).take(others(list, me).len() as int) =~= others(list, me));
    } else {
        lemma_others_prefix(list, me, i + 1);
        let next = list.take(i + 1);
        assert(next.drop_last() =~= list.take(i));
        let (short, long) = (others(list.take(i), me), others(next, me));
        assert(long.take(short.len() as int) =~= short);
        assert(others(list, me).take(short.len() as int) =~= others(list, me).take(
            long.len() as int,
        ).take(short.len() as int));
    }
}

/// Wraps a key for the members of a list other than `me`, in the order of the
/// list, and makes a frame for each. Stops at the first that fails.
pub fn distribute(
    state: &ClientState,
    server_id: ServerId,
    epoch: Epoch,
    key: &GroupKey,
    me: UserId,
    members: &Vec<MemberInfo>,
) -> (out: Outbox)
    ensures
        distributed(
            state@.connected,
            server_id,
            epoch,
            key@,
            others(members_of(members@), me),
            out@,
        ),
{
    let ghost list = members_of(members@);
    let mut frames: Vec<ClientMessage> = Vec::new();
    let mut i: usize = 0;
    assert(list.take(0) =~= Seq::<Member>::empty());
    while i < members.len()
        invariant
            i <= members.len(),
            list == members_of(members@),
            distributed(
                state@.connected,
                server_id,
                epoch,
                key@,
                others(list.take(i as int), me),
                (Outgoing { frames: requests_of(frames@), failure: None }),
            ),
        decreases members.len() - i,
    {
        let member = &members[i];
        let ghost sent = requests_of(frames@);
        let ghost done = others(list.take(i as int), me);
        let ghost next = others(list.take(i + 1), me);
        proof {
            assert(list.take(i + 1).drop_last() =~= list.take(i as int));
            assert(list.take(i + 1).last() == member@);
            lemma_others_prefix(list, me, i + 1);
        }
        if member.user_id != me {
            let ghost all = others(list, me);
            assert(next == done.push(member@));
            assert(all.take(next.len() as int)[done.len() as int] == member@);
            assert forall|j: int| 0 <= j < done.len() implies #[trigger] all[j] == done[j] by {
                assert(all.take(next.len() as int)[j] == next[j]);
            }
            let wrapped = match wrap_group_key_for(&member.kem_public_key, key) {
                Ok(wrapped) => wrapped,
                Err(error) => {
                    let context = followed_by("wrapping for ", uuid_text(member.user_id).as_str());
                    return Outbox { frames, failure: Some(error.context(context)) };
                },
            };
            let wrapped_key = base64_encode(&wrapped);
            let frame = ClientMessage::DistributeKey {
                server_id,
                target_user_id: member.user_id,
                epoch,
                wrapped_key,
            };
            match send(state, frame) {
                Ok(frame) => {
                    proof {
                        assert(delivers(member@.kem_public_key, key@, wrapped_key@));
                        assert(requests_of(frames@.push(frame)) =~= sent.push(frame@));
                    }
                    frames.push(frame);
                },
                Err(error) => {
                    return Outbox { frames, failure: Some(error) };
                },
            }
        }
        i += 1;
    }
    assert(list.take(i as int) =~= list);
    Outbox { frames, failure: None }
}

// ----------------------------------------------------------------------------
// The rekey itself
// ----------------------------------------------------------------------------

/// Whether `list` holds what is known of each member once.
pub open spec fn lists_members(list: Seq<Member>, members: Map<UserId, Member>) -> bool {
    exists|order: Seq<UserId>| #[trigger]
        lists_once(order, members.dom()) && list == order.map_values(|user: UserId| members[user])
}

/// What is known of each member, once, in the order in which the map is walked.
fn member_list(members: &HashMap<UserId, MemberInfo>) -> (list: Vec<MemberInfo>)
    ensures
        lists_members(members_of(list@), members@.map_values(|info: MemberInfo| info@)),
{
    let order = walk(members);
    let ghost known = members@.map_values(|info: MemberInfo| info@);
    let mut list: Vec<MemberInfo> = Vec::new();
    let mut i: usize = 0;
    while i < order.len()
        invariant
            i <= order.len(),
            lists_once(order@, members@.dom()),
            known == members@.map_values(|info: MemberInfo| info@),
            members_of(list@) =~= order@.take(i as int).map_values(|user: UserId| known[user]),
        decreases order.len() - i,
    {
        assert(order@.to_set().contains(order@[i as int]));
        match members.get(&order[i]) {
            Some(info) => {
                let copy = info.clone();
                proof {
                    assert(known[order@[i as int]] == copy@);
                    assert(order@.take(i + 1) =~= order@.take(i as int).push(order@[i as int]));
                    assert(members_of(list@.push(copy)) =~= members_of(list@).push(copy@));
                }
                list.push(copy);
            },
            None => {
                assert(false);
            },
        }
        i += 1;
    }
    proof {
        assert(known.dom() =~= members@.dom());
        assert(lists_once(order@, known.dom()));
        assert(order@.take(i as int) =~= order@);
    }
    list
}

/// Whether a client that has been elected went from `client` to `after`: it
/// holds `key` as the key of the current epoch and sent it to the other members,
/// taken in the order of `list`.
pub open spec fn rekeyed_with(
    client: Client,
    server_id: ServerId,
    me: UserId,
    key: Seq<u8>,
    list: Seq<Member>,
    after: Client,
    out: Outgoing,
) -> bool {
    let channel = client.channel(server_id);
    &&& key.len() == 32
    &&& lists_members(list, channel.members)
    &&& after == client.with_channel(server_id, channel.with_key(channel.epoch, key))
    &&& distributed(
        client.connected,
        server_id,
        channel.epoch,
        key,
        others(list, me),
        out,
    )
}

/// Whether this client makes the next key of a server: it is elected and holds
/// a key of some earlier epoch, so it was a member before the change.
pub open spec fn must_rekey(client: Client, server_id: ServerId, joiner: Option<UserId>) -> bool {
    &&& client.identity is Some
    &&& client.channels.contains_key(server_id)
    &&& elected(
        client.channels[server_id].members.dom(),
        joiner,
        client.identity->Some_0.user_id,
    )
    &&& client.channels[server_id].holds_earlier_key()
}

/// What a client does about the key of a server after a membership change, from
/// `client` to `after`.
pub open spec fn rekeyed(
    client: Client,
    server_id: ServerId,
    joiner: Option<UserId>,
    after: Client,
    out: Outgoing,
) -> bool {
    if client.identity is None {
        after == client && out == Outgoing::failed(seq!["no identity loaded"@])
    } else if must_rekey(client, server_id, joiner) {
        exists|key: Seq<u8>, list: Seq<Member>| #[trigger]
            rekeyed_with(
                client,
                server_id,
                client.identity->Some_0.user_id,
                key,
                list,
                after,
                out,
            )
    } else {
        after == client && out == Outgoing::nothing()
    }
}

/// Makes and distributes the key of the current epoch if it falls to this client
/// to do so; otherwise does nothing. `joiner` is the member that has just joined,
/// if the change was a join.
pub fn try_rekey_after_membership_change(
    state: &mut ClientState,
    server_id: ServerId,
    joiner: Option<UserId>,
) -> (out: Outbox)
    ensures
        rekeyed(old(state)@, server_id, joiner, final(state)@, out@),
{
    let me: UserId = match state.require_identity() {
        Ok(identity) => identity.user_id,
        Err(error) => {
            let out = Outbox { frames: Vec::new(), failure: Some(error) };
            assert(out@ =~= Outgoing::failed(seq!["no identity loaded"@]));
            return out;
        },
    };
    let nothing = Outbox { frames: Vec::new(), failure: None };
    assert(nothing@ =~= Outgoing::nothing());
    let (epoch, list) = match state.channel(server_id) {
        Some(channel) => {
            assert(channel@.members.dom() =~= channel.members@.dom());
            let falls_to_me = match lowest_entitled(&channel.members, joiner) {
                Some(lowest) => lowest == me,
                None => false,
            };
            if !falls_to_me || !channel.holds_earlier_key() {
                return nothing;
            }
            (channel.epoch, member_list(&channel.members))
        },
        None => {
            return nothing;
        },
    };
    let key = random_group_key();
    let mut channel = state.take_channel(server_id);
    channel.add_key(epoch, key);
    state.put_channel(server_id, channel);
    let out = distribute(state, server_id, epoch, &key, me, &list);
    proof {
        let before = old(state)@;
        assert(state@ =~= before.with_channel(
            server_id,
            before.channel(server_id).with_key(epoch, key@),
        ));
        assert(rekeyed_with(before, server_id, me, key@, members_of(list@), state@, out@));
    }
    out
}

/// Of two clients of different users that see the same members after a change,
/// at most one makes a new key; the other sends nothing and keeps its keys. So
/// there are no competing keys for the epoch.
pub proof fn law_one_client_rekeys(
    a: Client,
    b: Client,
    server_id: ServerId,
    joiner: Option<UserId>,
    after_a: Client,
    out_a: Outgoing,
    after_b: Client,
    out_b: Outgoing,
)
    requires
        rekeyed(a, server_id, joiner, after_a, out_a),
        rekeyed(b, server_id, joiner, after_b, out_b),
        a.channel(server_id).members.dom() == b.channel(server_id).members.dom(),
        a.identity is Some,
        b.identity is Some,
        a.identity->Some_0.user_id != b.identity->Some_0.user_id,
    ensures
        (after_a == a && out_a == Outgoing::nothing()) || (after_b == b && out_b
            == Outgoing::nothing()),
{
    if must_rekey(a, server_id, joiner) && must_rekey(b, server_id, joiner) {
        law_one_member_is_elected(
            a.channel(server_id).members.dom(),
            joiner,
            a.identity->Some_0.user_id,
            b.identity->Some_0.user_id,
        );
    }
}

/// The others of a list are those of its members that are not `me`.
pub proof fn lemma_others_are_the_others(list: Seq<Member>, me: UserId)
    ensures
        forall|member: Member|
            others(list, me).contains(member) <==> (#[trigger] list.contains(member)
                && member.user_id != me),
    decreases list.len(),
{
    if list.len() > 0 {
        let rest = list.drop_last();
        lemma_others_are_the_others(rest, me);
        assert(list =~= rest.push(list.last()));
        assert forall|member: Member|
            others(list, me).contains(member) <==> (#[trigger] list.contains(member)
                && member.user_id != me) by {
            assert(list.contains(member) <==> rest.contains(member) || member == list.last()) by {
                if rest.contains(member) {
                    let i = rest.index_of(member);
                    assert(list[i] == member);
                }
                if member == list.last() {
                    assert(list[list.len() - 1] == member);
                }
                if list.contains(member) {
                    let i = list.index_of(member);
                    if i < rest.len() {
                        assert(rest[i] == member);
                    }
                }
            }
            let short = others(rest, me);
            if list.last().user_id != me {
                let long = short.push(list.last());
                assert(long.contains(member) <==> short.contains(member) || member
                    == list.last()) by {
                    if short.contains(member) {
                        assert(long[short.index_of(member)] == member);
                    }
                    if member == list.last() {
                        assert(long[short.len() as int] == member);
                    }
                    if long.contains(member) {
                        let i = long.index_of(member);
                        if i < short.len() {
                            assert(short[i] == member);
                        }
                    }
                }
            }
        }
    } else {
        assert(others(list, me) =~= Seq::<Member>::empty());
    }
}

/// In a list without repetitions, all members but `me` are the others.
proof fn lemma_count_of_others(list: Seq<Member>, me: UserId)
    requires
        forall|i: int, j: int|
            0 <= i < j < list.len() ==> (#[trigger] list[i]).user_id != (
            #[trigger] list[j]).user_id,
    ensures
        others(list, me).len() == list.len() - (if exists|i: int|
            0 <= i < list.len() && (#[trigger] list[i]).user_id == me {
            1int
        } else {
            0int
        }),
    decreases list.len(),
{
    if list.len() > 0 {
        let rest = list.drop_last();
        lemma_count_of_others(rest, me);
        assert forall|i: int| 0 <= i < rest.len() implies rest[i] == #[trigger] list[i] by {}
        if list.last().user_id == me {
            assert(list[list.len() - 1].user_id == me);
            assert(!exists|i: int| 0 <= i < rest.len() && (#[trigger] rest[i]).user_id == me);
        } else if exists|i: int| 0 <= i < list.len() && (#[trigger] list[i]).user_id == me {
            let i = choose|i: int| 0 <= i < list.len() && (#[trigger] list[i]).user_id == me;
            assert(rest[i].user_id == me);
        }
    }
}

/// A rekey that reports no failure sends the new key to every member of the
/// channel but the one that makes it, to each once and to nobody else; the one
/// that makes it holds the key.
pub proof fn law_rekey_reaches_every_member(
    client: Client,
    server_id: ServerId,
    me: UserId,
    key: Seq<u8>,
    list: Seq<Member>,
    after: Client,
    out: Outgoing,
)
    requires
        rekeyed_with(client, server_id, me, key, list, after, out),
        client.channel(server_id).well_filed(),
        out.failure is None,
    ensures
        forall|user: UserId| #[trigger]
            client.channel(server_id).members.contains_key(user) && user != me ==> exists|i: int|
                0 <= i < out.frames.len() && #[trigger] brings_key(
                    out.frames[i],
                    server_id,
                    client.channel(server_id).epoch,
                    key,
                    client.channel(server_id).members[user],
                ),
        forall|i: int|
            0 <= i < out.frames.len() ==> match #[trigger] out.frames[i] {
                Request::DistributeKey { target_user_id, .. } => target_user_id != me
                    && client.channel(server_id).members.contains_key(target_user_id),
                _ => false,
            },
        client.channel(server_id).members.contains_key(me) ==> out.frames.len() + 1
            == client.channel(server_id).members.dom().len(),
        after.channel(server_id).keys[client.channel(server_id).epoch] == key,
{
    let channel = client.channel(server_id);
    let order = choose|order: Seq<UserId>| #[trigger]
        lists_once(order, channel.members.dom()) && list == order.map_values(
            |user: UserId| channel.members[user],
        );
    lemma_others_are_the_others(list, me);
    let to = others(list, me);
    assert forall|i: int, j: int| 0 <= i < j < list.len() implies (#[trigger] list[i]).user_id != (
    #[trigger] list[j]).user_id by {
        assert(order.to_set().contains(order[i]) && order.to_set().contains(order[j]));
    }
    lemma_count_of_others(list, me);
    order.unique_seq_to_set();
    if channel.members.contains_key(me) {
        assert(order.to_set().contains(me));
        assert(list[order.index_of(me)].user_id == me);
    }
    assert forall|user: UserId| #[trigger]
        channel.members.contains_key(user) && user != me implies exists|i: int|
        0 <= i < out.frames.len() && #[trigger] brings_key(
            out.frames[i],
            server_id,
            channel.epoch,
            key,
            channel.members[user],
        ) by {
        let member = channel.members[user];
        assert(order.to_set().contains(user));
        let j = order.index_of(user);
        assert(list[j] == member);
        assert(list.contains(member));
        assert(to.contains(member));
        let i = to.index_of(member);
        assert(brings_key(out.frames[i], server_id, channel.epoch, key, to[i]));
    }
    assert forall|i: int| 0 <= i < out.frames.len() implies match #[trigger] out.frames[i] {
        Request::DistributeKey { target_user_id, .. } => target_user_id != me
            && channel.members.contains_key(target_user_id),
        _ => false,
    } by {
        let target = to[i];
        assert(brings_key(out.frames[i], server_id, channel.epoch, key, target));
        assert(to.contains(target));
        assert(list.contains(target));
        let j = list.index_of(target);
        assert(order.to_set().contains(order[j]));
    }
}

} // verus!
