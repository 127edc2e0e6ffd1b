//! Who makes the next group key, and who gets it.
use vstd::prelude::*;

use crate::client::rekey::{
    brings_key, delivers, distributed, elected, entitled, law_rekey_reaches_every_member,
    lemma_others_are_the_others, lists_members, obstacle, others, rekeyed, rekeyed_with, Outgoing,
};
use crate::crypto::{
    envelope, kyber_encapsulation, masked, wraps_for, KYBER_CIPHERTEXT_BYTES,
    KYBER_PUBLIC_KEY_BYTES,
};
use crate::encoding::{base64_decoded, base64_encoded, Decoded};
use crate::identity::{stands_for, Identity};
use crate::error::Messages;
use crate::ids::id_text;
use crate::protocol::{Epoch, Member, Request, ServerId, UserId};
use crate::state::{lists_once, Client};
use crate::text::decimal_text;

verus! {

/// Whether each member is filed under its own identifier.
pub open spec fn filed_by_id(members: Map<UserId, Member>) -> bool {
    forall|user: UserId| #[trigger] members.contains_key(user) ==> members[user].user_id == user
}

/// Whether `text` is base64 of a Kyber ciphertext for `pk` followed by `key` XOR
/// the shared secret of that ciphertext.
pub open spec fn sealed_copy(text: Seq<char>, pk: Seq<u8>, key: Seq<u8>) -> bool {
    exists|ss: Seq<u8>, ct: Seq<u8>, hidden: Seq<u8>|
        {
            &&& #[trigger] kyber_encapsulation(pk, ss, ct)
            &&& ss.len() == 32
            &&& ct.len() == KYBER_CIPHERTEXT_BYTES
            &&& hidden.len() == key.len()
            &&& forall|i: int| 0 <= i < key.len() ==> #[trigger] hidden[i] == key[i] ^ ss[i]
            &&& text == base64_encoded(#[trigger] (ct + hidden))
            &&& base64_decoded(text) == Decoded::Ok(ct + hidden)
        }
}

/// Whether `frame` hands `key` to the user `to`, who owns the Kyber public key
/// `pk`, as the key of an epoch of a server.
pub open spec fn hands_key(
    frame: Request,
    server_id: ServerId,
    epoch: Epoch,
    key: Seq<u8>,
    to: UserId,
    pk: Seq<u8>,
) -> bool {
    &&& frame is DistributeKey
    &&& frame->DistributeKey_server_id == server_id
    &&& frame->DistributeKey_target_user_id == to
    &&& frame->DistributeKey_epoch == epoch
    &&& sealed_copy(frame->DistributeKey_wrapped_key, pk, key)
}

/// What is wrapped for a public key is a ciphertext for it and the masked key.
pub proof fn law_wrapped_keys_are_sealed_copies(pk: Seq<u8>, key: Seq<u8>, text: Seq<char>)
    requires
        delivers(pk, key, text),
    ensures
        sealed_copy(text, pk, key),
{
    let wrapped = choose|wrapped: Seq<u8>| #[trigger]
        wraps_for(pk, key, wrapped) && stands_for(text, wrapped);
    let (ss, ct) = choose|ss: Seq<u8>, ct: Seq<u8>| #[trigger]
        kyber_encapsulation(pk, ss, ct) && ss.len() == 32 && ct.len() == KYBER_CIPHERTEXT_BYTES
            && wrapped == envelope(ct, ss, key);
    let hidden = masked(key, ss);
    assert(kyber_encapsulation(pk, ss, ct) && wrapped == ct + hidden);
}

/// Who makes the next key: a member other than the joiner whose identifier is not
/// above that of any member other than the joiner.
pub proof fn law_the_lowest_earlier_member_is_elected(
    members: Set<UserId>,
    joiner: Option<UserId>,
    user: UserId,
)
    ensures
        elected(members, joiner, user) <==> (members.contains(user) && joiner != Some(user)
            && forall|other: UserId| #[trigger]
            members.contains(other) && joiner != Some(other) ==> user <= other),
        entitled(members, joiner) == Set::<UserId>::empty() <==> forall|other: UserId| #[trigger]
            members.contains(other) ==> joiner == Some(other),
{
    assert forall|other: UserId|
        entitled(members, joiner).contains(other) <==> #[trigger] members.contains(other)
            && joiner != Some(other) by {}
    if elected(members, joiner, user) {
        assert forall|other: UserId| #[trigger]
            members.contains(other) && joiner != Some(other) implies user <= other by {
            assert(entitled(members, joiner).contains(other));
        }
    }
    if forall|other: UserId| #[trigger] members.contains(other) ==> joiner == Some(other) {
        assert(entitled(members, joiner) =~= Set::<UserId>::empty());
    }
    if entitled(members, joiner) == Set::<UserId>::empty() {
        assert forall|other: UserId| #[trigger] members.contains(other) implies joiner == Some(
            other,
        ) by {
            assert(!entitled(members, joiner).contains(other));
        }
    }
}

/// Whether `member` is what is known of some user.
spec fn is_known(members: Map<UserId, Member>, member: Member) -> bool {
    exists|user: UserId| #[trigger] members.contains_key(user) && members[user] == member
}

/// The list that a rekey goes through holds exactly what is known of the members.
proof fn lemma_list_holds_the_members(list: Seq<Member>, members: Map<UserId, Member>)
    requires
        lists_members(list, members),
    ensures
        forall|i: int| 0 <= i < list.len() ==> is_known(members, #[trigger] list[i]),
        forall|user: UserId| #[trigger]
            members.contains_key(user) ==> list.contains(members[user]),
{
    let order = choose|order: Seq<UserId>| #[trigger]
        lists_once(order, members.dom()) && list == order.map_values(
            |user: UserId| members[user],
        );
    assert forall|i: int| 0 <= i < list.len() implies is_known(members, #[trigger] list[i]) by {
        assert(order.to_set().contains(order[i]));
        assert(members.contains_key(order[i]));
    }
    assert forall|user: UserId| #[trigger] members.contains_key(user) implies list.contains(
        members[user],
    ) by {
        assert(order.to_set().contains(user));
        assert(list[order.index_of(user)] == members[user]);
    }
}

/// After a membership change, a client whose user is a member other than the
/// joiner, with the lowest identifier among these, and that holds the key of any
/// epoch before the current one, makes a key: it holds a 32-byte key of the
/// current epoch afterwards, and nothing else about it has changed. When it is
/// connected and every other member has a well-formed Kyber key, it has exactly
/// one frame for every other member, which hands that very key over.
pub proof fn law_the_lowest_earlier_member_makes_the_key(
    client: Client,
    identity: Identity,
    server_id: ServerId,
    joiner: Option<UserId>,
    earlier: Epoch,
    after: Client,
    out: Outgoing,
)
    requires
        rekeyed(client, server_id, joiner, after, out),
        client.identity == Some(identity),
        client.channels.contains_key(server_id),
        client.channels[server_id].members.contains_key(identity.user_id),
        joiner != Some(identity.user_id),
        forall|user: UserId| #[trigger]
            client.channels[server_id].members.contains_key(user) && joiner != Some(user)
                ==> identity.user_id <= user,
        earlier < client.channels[server_id].epoch,
        client.channels[server_id].keys.contains_key(earlier),
    ensures
        after.identity == client.identity,
        after.connected == client.connected,
        after.session == client.session,
        after.pending_rpc == client.pending_rpc,
        after.last_rpc == client.last_rpc,
        after.channels.dom() == client.channels.dom(),
        forall|other: ServerId|
            other != server_id && #[trigger] client.channels.contains_key(other)
                ==> after.channels[other] == client.channels[other],
        after.channels[server_id].members == client.channels[server_id].members,
        after.channels[server_id].epoch == client.channels[server_id].epoch,
        after.channels[server_id].name == client.channels[server_id].name,
        after.channels[server_id].keys.contains_key(client.channels[server_id].epoch),
        after.channels[server_id].keys[client.channels[server_id].epoch].len() == 32,
        after.channels[server_id].keys == client.channels[server_id].keys.insert(
            client.channels[server_id].epoch,
            after.channels[server_id].keys[client.channels[server_id].epoch],
        ),
        client.connected && filed_by_id(client.channels[server_id].members) && (forall|user: UserId|
         #[trigger]
            client.channels[server_id].members.contains_key(user) && user != identity.user_id
                ==> client.channels[server_id].members[user].kem_public_key.len()
                == KYBER_PUBLIC_KEY_BYTES) ==> {
            &&& out.failure is None
            &&& out.frames.len() + 1 == client.channels[server_id].members.dom().len()
            &&& forall|user: UserId| #[trigger]
                client.channels[server_id].members.contains_key(user) && user != identity.user_id
                    ==> exists|i: int|
                    0 <= i < out.frames.len() && hands_key(
                        #[trigger] out.frames[i],
                        server_id,
                        client.channels[server_id].epoch,
                        after.channels[server_id].keys[client.channels[server_id].epoch],
                        user,
                        client.channels[server_id].members[user].kem_public_key,
                    )
        },
{
    let me = identity.user_id;
    let channel = client.channels[server_id];
    law_the_lowest_earlier_member_is_elected(channel.members.dom(), joiner, me);
    assert forall|other: UserId| #[trigger]
        channel.members.dom().contains(other) && joiner != Some(other) implies me <= other by {
        assert(channel.members.contains_key(other));
    }
    assert(channel.holds_earlier_key());
    let (key, list) = choose|key: Seq<u8>, list: Seq<Member>| #[trigger]
        rekeyed_with(client, server_id, me, key, list, after, out);
    assert(after.channels.dom() =~= client.channels.dom());
    if client.connected && filed_by_id(channel.members) && (forall|user: UserId| #[trigger]
        channel.members.contains_key(user) && user != me
            ==> channel.members[user].kem_public_key.len() == KYBER_PUBLIC_KEY_BYTES) {
        let to = others(list, me);
        lemma_others_are_the_others(list, me);
        lemma_list_holds_the_members(list, channel.members);
        assert forall|i: int| 0 <= i < to.len() implies obstacle(
            client.connected,
            #[trigger] to[i],
        ) is None by {
            assert(to.contains(to[i]));
            assert(list.contains(to[i]));
            let j = list.index_of(to[i]);
            assert(list[j] == to[i]);
            let user = choose|user: UserId| #[trigger]
                channel.members.contains_key(user) && channel.members[user] == list[j];
            assert(user != me);
        }
        law_rekey_reaches_every_member(client, server_id, me, key, list, after, out);
        assert forall|user: UserId| #[trigger]
            channel.members.contains_key(user) && user != me implies exists|i: int|
            0 <= i < out.frames.len() && hands_key(
                #[trigger] out.frames[i],
                server_id,
                channel.epoch,
                key,
                user,
                channel.members[user].kem_public_key,
            ) by {
            let member = channel.members[user];
            let i = choose|i: int|
                0 <= i < out.frames.len() && #[trigger] brings_key(
                    out.frames[i],
                    server_id,
                    channel.epoch,
                    key,
                    member,
                );
            law_wrapped_keys_are_sealed_copies(
                member.kem_public_key,
                key,
                out.frames[i]->DistributeKey_wrapped_key,
            );
            assert(hands_key(
                out.frames[i],
                server_id,
                channel.epoch,
                key,
                user,
                member.kem_public_key,
            ));
        }
    }
}

/// Everyone else waits: a client that is not in the server, whose user is not a
/// member or is the joiner, that knows of a lower member other than the joiner, or
/// that holds no key of an epoch before the current one, makes no key and sends
/// nothing.
pub proof fn law_everyone_else_waits(
    client: Client,
    identity: Identity,
    server_id: ServerId,
    joiner: Option<UserId>,
    lower: UserId,
    after: Client,
    out: Outgoing,
)
    requires
        rekeyed(client, server_id, joiner, after, out),
        client.identity == Some(identity),
        ({
            ||| !client.channels.contains_key(server_id)
            ||| !client.channels[server_id].members.contains_key(identity.user_id)
            ||| joiner == Some(identity.user_id)
            ||| client.channels[server_id].members.contains_key(lower) && joiner != Some(lower)
                && lower < identity.user_id
            ||| forall|epoch: Epoch| #[trigger]
                client.channels[server_id].keys.contains_key(epoch) ==> epoch
                    >= client.channels[server_id].epoch
        }),
    ensures
        after == client,
        out.frames.len() == 0,
        out.failure is None,
{
    if client.channels.contains_key(server_id) {
        let members = client.channels[server_id].members;
        law_the_lowest_earlier_member_is_elected(members.dom(), joiner, identity.user_id);
        assert(members.contains_key(lower) == members.dom().contains(lower));
    }
}

/// Without an identity nobody rekeys, and that is reported.
pub proof fn law_rekeying_needs_an_identity(
    client: Client,
    server_id: ServerId,
    joiner: Option<UserId>,
    after: Client,
    out: Outgoing,
)
    requires
        rekeyed(client, server_id, joiner, after, out),
        client.identity is None,
    ensures
        after == client,
        out.frames.len() == 0,
        out.failure == Some(seq!["no identity loaded"@]),
{
}

/// Whether one of the first frames, up to and with the one at `last`, hands the
/// key to `member`.
pub open spec fn served(
    frames: Seq<Request>,
    last: int,
    server_id: ServerId,
    epoch: Epoch,
    key: Seq<u8>,
    member: Member,
) -> bool {
    exists|j: int|
        0 <= j < frames.len() && j <= last && hands_key(
            #[trigger] frames[j],
            server_id,
            epoch,
            key,
            member.user_id,
            member.kem_public_key,
        )
}

/// Whether the frame hands the key to an entry of the list at `first` or later,
/// other than `me`.
pub open spec fn serves_one(
    frame: Request,
    list: Seq<Member>,
    first: int,
    me: UserId,
    server_id: ServerId,
    epoch: Epoch,
    key: Seq<u8>,
) -> bool {
    exists|i: int|
        first <= i < list.len() && (#[trigger] list[i]).user_id != me && hands_key(
            frame,
            server_id,
            epoch,
            key,
            list[i].user_id,
            list[i].kem_public_key,
        )
}

/// Each frame of a distribution hands the key to its receiver.
proof fn lemma_frames_hand_the_key(
    connected: bool,
    server_id: ServerId,
    epoch: Epoch,
    key: Seq<u8>,
    to: Seq<Member>,
    out: Outgoing,
    j: int,
)
    requires
        distributed(connected, server_id, epoch, key, to, out),
        0 <= j < out.frames.len(),
    ensures
        hands_key(
            out.frames[j],
            server_id,
            epoch,
            key,
            to[j].user_id,
            to[j].kem_public_key,
        ),
{
    assert(brings_key(out.frames[j], server_id, epoch, key, to[j]));
    law_wrapped_keys_are_sealed_copies(
        to[j].kem_public_key,
        key,
        out.frames[j]->DistributeKey_wrapped_key,
    );
}

/// Where a distribution reports no failure, every entry of the list other than
/// `me` gets a frame with the key sealed for it, no later in the frames than the
/// entry is in the list.
pub proof fn law_distribution_serves_the_whole_list(
    connected: bool,
    server_id: ServerId,
    epoch: Epoch,
    key: Seq<u8>,
    me: UserId,
    list: Seq<Member>,
    out: Outgoing,
)
    requires
        distributed(connected, server_id, epoch, key, others(list, me), out),
        out.failure is None,
    ensures
        forall|i: int|
            0 <= i < list.len() && (#[trigger] list[i]).user_id != me ==> served(
                out.frames,
                i,
                server_id,
                epoch,
                key,
                list[i],
            ),
{
    let to = others(list, me);
    lemma_others_keep_their_places(list, me);
    assert forall|i: int| 0 <= i < list.len() && (#[trigger] list[i]).user_id != me implies served(
        out.frames,
        i,
        server_id,
        epoch,
        key,
        list[i],
    ) by {
        assert(placed_before(to, i, list[i]));
        let j = choose|j: int| 0 <= j < to.len() && j <= i && #[trigger] to[j] == list[i];
        lemma_frames_hand_the_key(connected, server_id, epoch, key, to, out, j);
        assert(hands_key(
            out.frames[j],
            server_id,
            epoch,
            key,
            list[i].user_id,
            list[i].kem_public_key,
        ));
    }
}

/// A distribution sends nothing else: every frame hands the key to an entry of
/// the list other than `me`, no earlier in the list than the frame is in the
/// frames.
pub proof fn law_distribution_serves_nobody_else(
    connected: bool,
    server_id: ServerId,
    epoch: Epoch,
    key: Seq<u8>,
    me: UserId,
    list: Seq<Member>,
    out: Outgoing,
)
    requires
        distributed(connected, server_id, epoch, key, others(list, me), out),
    ensures
        forall|j: int|
            0 <= j < out.frames.len() ==> serves_one(
                #[trigger] out.frames[j],
                list,
                j,
                me,
                server_id,
                epoch,
                key,
            ),
{
    let to = others(list, me);
    lemma_others_keep_their_places(list, me);
    assert forall|j: int| 0 <= j < out.frames.len() implies serves_one(
        #[trigger] out.frames[j],
        list,
        j,
        me,
        server_id,
        epoch,
        key,
    ) by {
        assert(placed_after(list, j, me, to[j]));
        let i = choose|i: int|
            j <= i < list.len() && #[trigger] list[i] == to[j] && list[i].user_id != me;
        lemma_frames_hand_the_key(connected, server_id, epoch, key, to, out, j);
    }
}

/// Whether `member` is among the first entries, up to and with the one at `last`.
spec fn placed_before(list: Seq<Member>, last: int, member: Member) -> bool {
    exists|j: int| 0 <= j < list.len() && j <= last && #[trigger] list[j] == member
}

/// Whether `member` is an entry at `first` or later, other than `me`.
spec fn placed_after(list: Seq<Member>, first: int, me: UserId, member: Member) -> bool {
    exists|i: int|
        first <= i < list.len() && #[trigger] list[i] == member && list[i].user_id != me
}

/// The others of a list stand at or before their places in the list.
proof fn lemma_others_keep_their_places(list: Seq<Member>, me: UserId)
    ensures
        others(list, me).len() <= list.len(),
        forall|i: int|
            0 <= i < list.len() && (#[trigger] list[i]).user_id != me ==> placed_before(
                others(list, me),
                i,
                list[i],
            ),
        forall|j: int|
            0 <= j < others(list, me).len() ==> placed_after(
                list,
                j,
                me,
                #[trigger] others(list, me)[j],
            ),
    decreases list.len(),
{
    if list.len() > 0 {
        let rest = list.drop_last();
        lemma_others_keep_their_places(rest, me);
        let (short, long) = (others(rest, me), others(list, me));
        assert forall|i: int| 0 <= i < list.len() && (#[trigger] list[i]).user_id
            != me implies placed_before(long, i, list[i]) by {
            if i < rest.len() {
                assert(rest[i] == list[i]);
                assert(placed_before(short, i, rest[i]));
                let j = choose|j: int|
                    0 <= j < short.len() && j <= i && #[trigger] short[j] == rest[i];
                assert(long[j] == short[j]);
            } else {
                assert(long[short.len() as int] == list[i]);
            }
        }
        assert forall|j: int| 0 <= j < long.len() implies placed_after(
            list,
            j,
            me,
            #[trigger] long[j],
        ) by {
            if j < short.len() {
                assert(long[j] == short[j]);
                assert(placed_after(rest, j, me, short[j]));
                let i = choose|i: int|
                    j <= i < rest.len() && #[trigger] rest[i] == short[j] && rest[i].user_id != me;
                assert(list[i] == rest[i]);
            } else {
                assert(list[list.len() - 1] == long[j]);
            }
        }
    }
}

/// Whether something stands in the way of a key for `member`: a malformed Kyber
/// key, or the lack of a connection.
pub open spec fn hindered(connected: bool, member: Member) -> bool {
    !connected || member.kem_public_key.len() != KYBER_PUBLIC_KEY_BYTES
}

/// What is reported of it: the member and the length of its key, or else the lack
/// of a connection.
pub open spec fn hindrance(member: Member) -> Messages {
    if member.kem_public_key.len() != KYBER_PUBLIC_KEY_BYTES {
        seq![
            "wrapping for "@ + id_text(member.user_id),
            "invalid recipient Kyber pubkey: "@ + ("BadLength { name: \""@ + "PublicKey"@
                + "\", actual: "@ + decimal_text(member.kem_public_key.len()) + ", expected: "@
                + decimal_text(KYBER_PUBLIC_KEY_BYTES as nat) + " }"@),
        ]
    } else {
        seq!["not connected"@]
    }
}

/// An obstacle is a hindrance.
proof fn lemma_obstacles(connected: bool, member: Member)
    ensures
        obstacle(connected, member) is Some <==> hindered(connected, member),
        obstacle(connected, member) matches Some(messages) ==> messages == hindrance(member),
{
    if member.kem_public_key.len() != KYBER_PUBLIC_KEY_BYTES {
        assert(obstacle(connected, member)->Some_0 =~= hindrance(member));
    }
}

/// What stops a distribution: that something stands in the way of an entry of the
/// list other than `me`. It is reported of such an entry. Nothing is sent without
/// a connection.
pub proof fn law_distribution_reports_the_obstacle(
    connected: bool,
    server_id: ServerId,
    epoch: Epoch,
    key: Seq<u8>,
    me: UserId,
    list: Seq<Member>,
    out: Outgoing,
)
    requires
        distributed(connected, server_id, epoch, key, others(list, me), out),
    ensures
        out.failure is Some <==> exists|i: int|
            0 <= i < list.len() && list[i].user_id != me && hindered(connected, #[trigger] list[i]),
        out.failure matches Some(messages) ==> exists|i: int|
            0 <= i < list.len() && list[i].user_id != me && hindered(connected, #[trigger] list[i])
                && messages == hindrance(list[i]),
        !connected ==> out.frames.len() == 0,
{
    let to = others(list, me);
    lemma_others_keep_their_places(list, me);
    let n = out.frames.len() as int;
    if out.failure is Some {
        assert(placed_after(list, n, me, to[n]));
        let i = choose|i: int|
            n <= i < list.len() && #[trigger] list[i] == to[n] && list[i].user_id != me;
        lemma_obstacles(connected, list[i]);
    }
    if exists|i: int|
        0 <= i < list.len() && list[i].user_id != me && hindered(connected, #[trigger] list[i]) {
        let i = choose|i: int|
            0 <= i < list.len() && list[i].user_id != me && hindered(connected, #[trigger] list[i]);
        assert(placed_before(to, i, list[i]));
        let j = choose|j: int| 0 <= j < to.len() && j <= i && #[trigger] to[j] == list[i];
        lemma_obstacles(connected, to[j]);
    }
    if !connected && n > 0 {
        lemma_obstacles(connected, to[0]);
    }
}

/// Whether the frame hands the key to a member other than `me`.
pub open spec fn serves_a_member(
    frame: Request,
    members: Map<UserId, Member>,
    me: UserId,
    server_id: ServerId,
    epoch: Epoch,
    key: Seq<u8>,
) -> bool {
    exists|user: UserId| #[trigger]
        members.contains_key(user) && user != me && hands_key(
            frame,
            server_id,
            epoch,
            key,
            user,
            members[user].kem_public_key,
        )
}

/// When the lowest earlier member makes the key, every frame it has hands that key
/// to another member. It reports a failure exactly when something stands in the
/// way of another member, and then of one such. Without a connection it has no
/// frames, but holds the key.
pub proof fn law_a_rekey_reports_what_stops_it(
    client: Client,
    identity: Identity,
    server_id: ServerId,
    joiner: Option<UserId>,
    earlier: Epoch,
    after: Client,
    out: Outgoing,
)
    requires
        rekeyed(client, server_id, joiner, after, out),
        client.identity == Some(identity),
        client.channels.contains_key(server_id),
        filed_by_id(client.channels[server_id].members),
        client.channels[server_id].members.contains_key(identity.user_id),
        joiner != Some(identity.user_id),
        forall|user: UserId| #[trigger]
            client.channels[server_id].members.contains_key(user) && joiner != Some(user)
                ==> identity.user_id <= user,
        earlier < client.channels[server_id].epoch,
        client.channels[server_id].keys.contains_key(earlier),
    ensures
        forall|i: int|
            0 <= i < out.frames.len() ==> serves_a_member(
                #[trigger] out.frames[i],
                client.channels[server_id].members,
                identity.user_id,
                server_id,
                client.channels[server_id].epoch,
                after.channels[server_id].keys[client.channels[server_id].epoch],
            ),
        out.failure is Some <==> exists|user: UserId| #[trigger]
            client.channels[server_id].members.contains_key(user) && user != identity.user_id
                && hindered(client.connected, client.channels[server_id].members[user]),
        out.failure matches Some(messages) ==> exists|user: UserId| #[trigger]
            client.channels[server_id].members.contains_key(user) && user != identity.user_id
                && hindered(client.connected, client.channels[server_id].members[user]) && messages
                == hindrance(client.channels[server_id].members[user]),
        !client.connected ==> out.frames.len() == 0,
{
    let me = identity.user_id;
    let channel = client.channels[server_id];
    let members = channel.members;
    law_the_lowest_earlier_member_is_elected(members.dom(), joiner, me);
    assert forall|other: UserId| #[trigger]
        members.dom().contains(other) && joiner != Some(other) implies me <= other by {
        assert(members.contains_key(other));
    }
    assert(channel.holds_earlier_key());
    let (key, list) = choose|key: Seq<u8>, list: Seq<Member>| #[trigger]
        rekeyed_with(client, server_id, me, key, list, after, out);
    lemma_list_holds_the_members(list, members);
    law_distribution_serves_nobody_else(
        client.connected,
        server_id,
        channel.epoch,
        key,
        me,
        list,
        out,
    );
    law_distribution_reports_the_obstacle(
        client.connected,
        server_id,
        channel.epoch,
        key,
        me,
        list,
        out,
    );
    assert forall|j: int| 0 <= j < out.frames.len() implies serves_a_member(
        #[trigger] out.frames[j],
        members,
        me,
        server_id,
        channel.epoch,
        key,
    ) by {
        assert(serves_one(out.frames[j], list, j, me, server_id, channel.epoch, key));
        let i = choose|i: int|
            j <= i < list.len() && (#[trigger] list[i]).user_id != me && hands_key(
                out.frames[j],
                server_id,
                channel.epoch,
                key,
                list[i].user_id,
                list[i].kem_public_key,
            );
        assert(is_known(members, list[i]));
        let user = choose|user: UserId| #[trigger]
            members.contains_key(user) && members[user] == list[i];
        assert(members.contains_key(user));
    }
    if out.failure is Some {
        let messages = out.failure->Some_0;
        let i = choose|i: int|
            0 <= i < list.len() && list[i].user_id != me && hindered(
                client.connected,
                #[trigger] list[i],
            ) && messages == hindrance(list[i]);
        assert(is_known(members, list[i]));
        let user = choose|user: UserId| #[trigger]
            members.contains_key(user) && members[user] == list[i];
        assert(members.contains_key(user));
    }
    if exists|user: UserId| #[trigger]
        members.contains_key(user) && user != me && hindered(client.connected, members[user]) {
        let user = choose|user: UserId| #[trigger]
            members.contains_key(user) && user != me && hindered(client.connected, members[user]);
        assert(list.contains(members[user]));
        let i = list.index_of(members[user]);
        assert(hindered(client.connected, list[i]));
    }
}

} // verus!
