//! What becomes of a channel: members that join and leave, keys that arrive,
//! servers that are created, joined and left.
use vstd::prelude::*;

use crate::client::events::{event_handled, member_added, member_removed, Effects};
use crate::client::flows::{members_learnt, own_member, server_founded, server_joined, server_left};
use crate::client::rekey::{rekeyed, Outgoing};
use crate::client::Notice;
use crate::crypto::{
    kyber_decapsulated, unwrap_outcome, KYBER_CIPHERTEXT_BYTES, KYBER_PUBLIC_KEY_BYTES,
    KYBER_SECRET_KEY_BYTES,
};
use crate::encoding::{base64_decoded, Decoded};
use crate::error::Messages;
use crate::identity::Identity;
use crate::ids::id_text;
use crate::laws::rekeying::{
    filed_by_id, hands_key, law_everyone_else_waits, law_the_lowest_earlier_member_makes_the_key,
};
use crate::protocol::{Epoch, Member, MemberInfo, ServerId, ServerMessage, UserId};
use crate::state::{Channel, Client};
use crate::text::decimal_text;

verus! {

/// What a client knows of the members of a server: nobody, where it is not in it.
pub open spec fn members_before(client: Client, server_id: ServerId) -> Map<UserId, Member> {
    if client.channels.contains_key(server_id) {
        client.channels[server_id].members
    } else {
        Map::empty()
    }
}

/// The keys that a client holds of a server: none, where it is not in it.
pub open spec fn keys_before(client: Client, server_id: ServerId) -> Map<Epoch, Seq<u8>> {
    if client.channels.contains_key(server_id) {
        client.channels[server_id].keys
    } else {
        Map::empty()
    }
}

/// The name that a client knows of a server: none, where it is not in it.
pub open spec fn name_before(client: Client, server_id: ServerId) -> Seq<char> {
    if client.channels.contains_key(server_id) {
        client.channels[server_id].name
    } else {
        Seq::empty()
    }
}

/// Whether two states of a client agree on all but one server, which the later
/// one knows of.
pub open spec fn only_server_touched(client: Client, after: Client, server_id: ServerId) -> bool {
    &&& after.identity == client.identity
    &&& after.connected == client.connected
    &&& after.session == client.session
    &&& after.pending_rpc == client.pending_rpc
    &&& after.last_rpc == client.last_rpc
    &&& after.channels.contains_key(server_id)
    &&& forall|other: ServerId|
        other != server_id ==> (#[trigger] after.channels.contains_key(other)
            <==> client.channels.contains_key(other))
    &&& forall|other: ServerId|
        other != server_id && #[trigger] client.channels.contains_key(other)
            ==> after.channels[other] == client.channels[other]
}

/// Whether a client holds, after a change to another epoch, the keys that it held
/// before, and no other but perhaps a new one of that epoch.
pub open spec fn earlier_keys_stay(
    before: Map<Epoch, Seq<u8>>,
    after: Map<Epoch, Seq<u8>>,
    epoch: Epoch,
) -> bool {
    &&& forall|e: Epoch|
        e != epoch ==> (#[trigger] after.contains_key(e) <==> before.contains_key(e))
    &&& forall|e: Epoch|
        e != epoch && #[trigger] before.contains_key(e) ==> after[e] == before[e]
    &&& before.contains_key(epoch) ==> after.contains_key(epoch)
}

/// The keys, members and other channels after a rekey or the lack of one.
proof fn lemma_rekey_touches_one_key(
    client: Client,
    server_id: ServerId,
    joiner: Option<UserId>,
    after: Client,
    out: Outgoing,
)
    requires
        rekeyed(client, server_id, joiner, after, out),
        client.channels.contains_key(server_id),
    ensures
        only_server_touched(client, after, server_id),
        after.channels[server_id].members == client.channels[server_id].members,
        after.channels[server_id].epoch == client.channels[server_id].epoch,
        after.channels[server_id].name == client.channels[server_id].name,
        earlier_keys_stay(
            client.channels[server_id].keys,
            after.channels[server_id].keys,
            client.channels[server_id].epoch,
        ),
{
}

/// When a member joins, the client knows it, besides those it knew, and the new
/// epoch; the user is told; all keys of other epochs stay, and so does every other
/// server.
pub proof fn law_a_joining_member_is_remembered(
    client: Client,
    server_id: ServerId,
    member: MemberInfo,
    epoch: Epoch,
    after: Client,
    effects: Effects,
)
    requires
        event_handled(
            client,
            ServerMessage::MemberJoined { server_id, member, epoch },
            after,
            effects,
        ),
    ensures
        only_server_touched(client, after, server_id),
        after.channels[server_id].epoch == epoch,
        after.channels[server_id].name == name_before(client, server_id),
        after.channels[server_id].members == members_before(client, server_id).insert(
            member.user_id,
            Member {
                user_id: member.user_id,
                display_name: member.display_name@,
                kem_public_key: member.kem_public_key@,
                sig_public_key: member.sig_public_key@,
            },
        ),
        earlier_keys_stay(
            keys_before(client, server_id),
            after.channels[server_id].keys,
            epoch,
        ),
        effects.shown == Some(
            Notice::MemberChange {
                server_id,
                user_id: member.user_id,
                display_name: member.display_name@,
                epoch,
                kind: "joined"@,
            },
        ),
        client.identity is None ==> effects.out.failure == Some(seq!["no identity loaded"@]),
{
    let mid = member_added(client, server_id, member@, epoch);
    lemma_rekey_touches_one_key(mid, server_id, Some(member.user_id), after, effects.out);
}

/// When a member joins, a client whose user was a member before, with the lowest
/// identifier of those other than the joiner, and that holds the key of any
/// earlier epoch, holds a key of the new epoch afterwards. When it is connected
/// and the Kyber keys are well-formed, everyone else gets that key in a frame,
/// the joiner too.
pub proof fn law_a_join_brings_a_new_key(
    client: Client,
    identity: Identity,
    server_id: ServerId,
    member: MemberInfo,
    epoch: Epoch,
    earlier: Epoch,
    after: Client,
    effects: Effects,
)
    requires
        event_handled(
            client,
            ServerMessage::MemberJoined { server_id, member, epoch },
            after,
            effects,
        ),
        client.identity == Some(identity),
        client.channels.contains_key(server_id),
        client.channels[server_id].members.contains_key(identity.user_id),
        identity.user_id != member.user_id,
        forall|user: UserId| #[trigger]
            client.channels[server_id].members.contains_key(user) && user != member.user_id
                ==> identity.user_id <= user,
        earlier < epoch,
        client.channels[server_id].keys.contains_key(earlier),
    ensures
        after.channels[server_id].keys.contains_key(epoch),
        after.channels[server_id].keys[epoch].len() == 32,
        client.connected && filed_by_id(client.channels[server_id].members)
            && member.kem_public_key@.len() == KYBER_PUBLIC_KEY_BYTES && (forall|user: UserId| #[trigger]
            client.channels[server_id].members.contains_key(user) && user != identity.user_id
                && user != member.user_id
                ==> client.channels[server_id].members[user].kem_public_key.len()
                == KYBER_PUBLIC_KEY_BYTES) ==> {
            &&& effects.out.failure is None
            &&& effects.out.frames.len() + 1 == client.channels[server_id].members.dom().insert(
                member.user_id,
            ).len()
            &&& exists|i: int|
                0 <= i < effects.out.frames.len() && hands_key(
                    #[trigger] effects.out.frames[i],
                    server_id,
                    epoch,
                    after.channels[server_id].keys[epoch],
                    member.user_id,
                    member.kem_public_key@,
                )
            &&& forall|user: UserId| #[trigger]
                client.channels[server_id].members.contains_key(user) && user != identity.user_id
                    && user != member.user_id ==> exists|i: int|
                    0 <= i < effects.out.frames.len() && hands_key(
                        #[trigger] effects.out.frames[i],
                        server_id,
                        epoch,
                        after.channels[server_id].keys[epoch],
                        user,
                        client.channels[server_id].members[user].kem_public_key,
                    )
        },
{
    let mid = member_added(client, server_id, member@, epoch);
    let (old, new) = (client.channels[server_id], mid.channels[server_id]);
    assert forall|user: UserId| #[trigger]
        new.members.contains_key(user) && Some(member.user_id) != Some(user) implies
        identity.user_id <= user by {
        assert(old.members.contains_key(user));
    }
    law_the_lowest_earlier_member_makes_the_key(
        mid,
        identity,
        server_id,
        Some(member.user_id),
        earlier,
        after,
        effects.out,
    );
    assert(new.members.dom() =~= old.members.dom().insert(member.user_id));
    if client.connected && filed_by_id(old.members) && member.kem_public_key@.len()
        == KYBER_PUBLIC_KEY_BYTES && (forall|user: UserId| #[trigger]
        old.members.contains_key(user) && user != identity.user_id && user != member.user_id
            ==> old.members[user].kem_public_key.len() == KYBER_PUBLIC_KEY_BYTES) {
        assert forall|user: UserId| #[trigger]
            new.members.contains_key(user) && user != identity.user_id implies
            new.members[user].kem_public_key.len() == KYBER_PUBLIC_KEY_BYTES by {
            if user != member.user_id {
                assert(old.members.contains_key(user));
            }
        }
        assert(filed_by_id(new.members)) by {
            assert forall|user: UserId| #[trigger] new.members.contains_key(user) implies
                new.members[user].user_id == user by {
                if user != member.user_id {
                    assert(old.members.contains_key(user));
                }
            }
        }
        assert(new.members.contains_key(member.user_id));
        assert forall|user: UserId| #[trigger]
            old.members.contains_key(user) && user != identity.user_id && user
                != member.user_id implies exists|i: int|
            0 <= i < effects.out.frames.len() && hands_key(
                #[trigger] effects.out.frames[i],
                server_id,
                epoch,
                after.channels[server_id].keys[epoch],
                user,
                old.members[user].kem_public_key,
            ) by {
            assert(new.members.contains_key(user));
        }
    }
}

/// The founder of a server, its sole member, who holds the key of the epoch it was
/// founded at, hands a key of the next epoch to whoever joins first: one frame, to
/// the joiner.
pub proof fn law_a_founder_hands_the_key_to_the_first_joiner(
    client: Client,
    identity: Identity,
    me: Member,
    server_id: ServerId,
    founded: Epoch,
    member: MemberInfo,
    epoch: Epoch,
    after: Client,
    effects: Effects,
)
    requires
        event_handled(
            client,
            ServerMessage::MemberJoined { server_id, member, epoch },
            after,
            effects,
        ),
        client.identity == Some(identity),
        client.connected,
        client.channels.contains_key(server_id),
        me.user_id == identity.user_id,
        client.channels[server_id].members == Map::<UserId, Member>::empty().insert(
            identity.user_id,
            me,
        ),
        client.channels[server_id].keys.contains_key(founded),
        founded < epoch,
        member.user_id != identity.user_id,
        member.kem_public_key@.len() == KYBER_PUBLIC_KEY_BYTES,
    ensures
        after.channels[server_id].keys.contains_key(epoch),
        effects.out.failure is None,
        effects.out.frames.len() == 1,
        hands_key(
            effects.out.frames[0],
            server_id,
            epoch,
            after.channels[server_id].keys[epoch],
            member.user_id,
            member.kem_public_key@,
        ),
{
    law_a_join_brings_a_new_key(
        client,
        identity,
        server_id,
        member,
        epoch,
        founded,
        after,
        effects,
    );
    let all = client.channels[server_id].members.dom().insert(member.user_id);
    assert(all =~= Set::<UserId>::empty().insert(identity.user_id).insert(member.user_id));
    assert(all.len() == 2);
}

/// When a member joins, every client other than the one that makes the key keeps
/// its keys as they are and sends nothing.
pub proof fn law_others_wait_after_a_join(
    client: Client,
    identity: Identity,
    server_id: ServerId,
    member: MemberInfo,
    epoch: Epoch,
    lower: UserId,
    after: Client,
    effects: Effects,
)
    requires
        event_handled(
            client,
            ServerMessage::MemberJoined { server_id, member, epoch },
            after,
            effects,
        ),
        client.identity == Some(identity),
        ({
            ||| member.user_id == identity.user_id
            ||| !members_before(client, server_id).contains_key(identity.user_id)
            ||| members_before(client, server_id).contains_key(lower) && lower != member.user_id
                && lower < identity.user_id
            ||| forall|e: Epoch| #[trigger]
                keys_before(client, server_id).contains_key(e) ==> e >= epoch
        }),
    ensures
        after.channels[server_id].keys == keys_before(client, server_id),
        effects.out.frames.len() == 0,
        effects.out.failure is None,
{
    let mid = member_added(client, server_id, member@, epoch);
    assert(mid.channels[server_id].keys == keys_before(client, server_id));
    law_everyone_else_waits(
        mid,
        identity,
        server_id,
        Some(member.user_id),
        lower,
        after,
        effects.out,
    );
}

/// When a member leaves, the client knows it no more, and the new epoch; the user
/// is told; all keys of other epochs stay, and so does every other server.
pub proof fn law_a_leaving_member_is_forgotten(
    client: Client,
    server_id: ServerId,
    user_id: UserId,
    epoch: Epoch,
    after: Client,
    effects: Effects,
)
    requires
        event_handled(
            client,
            ServerMessage::MemberLeft { server_id, user_id, epoch },
            after,
            effects,
        ),
    ensures
        only_server_touched(client, after, server_id),
        after.channels[server_id].epoch == epoch,
        after.channels[server_id].name == name_before(client, server_id),
        after.channels[server_id].members == members_before(client, server_id).remove(user_id),
        !after.channels[server_id].members.contains_key(user_id),
        earlier_keys_stay(
            keys_before(client, server_id),
            after.channels[server_id].keys,
            epoch,
        ),
        effects.shown == Some(
            Notice::MemberChange {
                server_id,
                user_id,
                display_name: id_text(user_id),
                epoch,
                kind: "left"@,
            },
        ),
        client.identity is None ==> effects.out.failure == Some(seq!["no identity loaded"@]),
{
    let mid = member_removed(client, server_id, user_id, epoch);
    lemma_rekey_touches_one_key(mid, server_id, None, after, effects.out);
    assert(mid.channels[server_id].members =~= members_before(client, server_id).remove(user_id));
}

/// When a member leaves, the lowest of those that stay, if it holds the key of any
/// earlier epoch, holds a key of the new epoch afterwards. When it is connected
/// and the Kyber keys are well-formed, everyone else that stays gets that key in
/// a frame, and the one that left does not.
pub proof fn law_a_leave_brings_a_new_key(
    client: Client,
    identity: Identity,
    server_id: ServerId,
    user_id: UserId,
    epoch: Epoch,
    earlier: Epoch,
    after: Client,
    effects: Effects,
)
    requires
        event_handled(
            client,
            ServerMessage::MemberLeft { server_id, user_id, epoch },
            after,
            effects,
        ),
        client.identity == Some(identity),
        client.channels.contains_key(server_id),
        client.channels[server_id].members.contains_key(identity.user_id),
        identity.user_id != user_id,
        forall|user: UserId| #[trigger]
            client.channels[server_id].members.contains_key(user) && user != user_id
                ==> identity.user_id <= user,
        earlier < epoch,
        client.channels[server_id].keys.contains_key(earlier),
    ensures
        after.channels[server_id].keys.contains_key(epoch),
        after.channels[server_id].keys[epoch].len() == 32,
        client.connected && filed_by_id(client.channels[server_id].members) && (forall|user: UserId|
         #[trigger]
            client.channels[server_id].members.contains_key(user) && user != identity.user_id
                && user != user_id ==> client.channels[server_id].members[user].kem_public_key.len()
                == KYBER_PUBLIC_KEY_BYTES) ==> {
            &&& effects.out.failure is None
            &&& effects.out.frames.len() + 1 == client.channels[server_id].members.dom().remove(
                user_id,
            ).len()
            &&& forall|user: UserId| #[trigger]
                client.channels[server_id].members.contains_key(user) && user != identity.user_id
                    && user != user_id ==> exists|i: int|
                    0 <= i < effects.out.frames.len() && hands_key(
                        #[trigger] effects.out.frames[i],
                        server_id,
                        epoch,
                        after.channels[server_id].keys[epoch],
                        user,
                        client.channels[server_id].members[user].kem_public_key,
                    )
        },
{
    let mid = member_removed(client, server_id, user_id, epoch);
    let (old, new) = (client.channels[server_id], mid.channels[server_id]);
    assert forall|user: UserId| #[trigger]
        new.members.contains_key(user) && None::<UserId> != Some(user) implies identity.user_id
        <= user by {
        assert(old.members.contains_key(user));
    }
    law_the_lowest_earlier_member_makes_the_key(
        mid,
        identity,
        server_id,
        None,
        earlier,
        after,
        effects.out,
    );
    assert(new.members.dom() =~= old.members.dom().remove(user_id));
    if client.connected && filed_by_id(old.members) && (forall|user: UserId| #[trigger]
        old.members.contains_key(user) && user != identity.user_id && user != user_id
            ==> old.members[user].kem_public_key.len() == KYBER_PUBLIC_KEY_BYTES) {
        assert forall|user: UserId| #[trigger]
            new.members.contains_key(user) && user != identity.user_id implies
            new.members[user].kem_public_key.len() == KYBER_PUBLIC_KEY_BYTES by {
            assert(old.members.contains_key(user));
        }
        assert(filed_by_id(new.members)) by {
            assert forall|user: UserId| #[trigger] new.members.contains_key(user) implies
                new.members[user].user_id == user by {
                assert(old.members.contains_key(user));
            }
        }
        assert forall|user: UserId| #[trigger]
            old.members.contains_key(user) && user != identity.user_id && user
                != user_id implies exists|i: int|
            0 <= i < effects.out.frames.len() && hands_key(
                #[trigger] effects.out.frames[i],
                server_id,
                epoch,
                after.channels[server_id].keys[epoch],
                user,
                old.members[user].kem_public_key,
            ) by {
            assert(new.members.contains_key(user));
        }
    }
}

/// When a member leaves, every client other than the one that makes the key keeps
/// its keys as they are and sends nothing.
pub proof fn law_others_wait_after_a_leave(
    client: Client,
    identity: Identity,
    server_id: ServerId,
    user_id: UserId,
    epoch: Epoch,
    lower: UserId,
    after: Client,
    effects: Effects,
)
    requires
        event_handled(
            client,
            ServerMessage::MemberLeft { server_id, user_id, epoch },
            after,
            effects,
        ),
        client.identity == Some(identity),
        ({
            ||| user_id == identity.user_id
            ||| !members_before(client, server_id).contains_key(identity.user_id)
            ||| members_before(client, server_id).contains_key(lower) && lower != user_id && lower
                < identity.user_id
            ||| forall|e: Epoch| #[trigger]
                keys_before(client, server_id).contains_key(e) ==> e >= epoch
        }),
    ensures
        after.channels[server_id].keys == keys_before(client, server_id),
        effects.out.frames.len() == 0,
        effects.out.failure is None,
{
    let mid = member_removed(client, server_id, user_id, epoch);
    assert(mid.channels[server_id].keys == keys_before(client, server_id));
    law_everyone_else_waits(mid, identity, server_id, None, lower, after, effects.out);
}

/// A group key arrives: the bytes behind the Kyber ciphertext, XOR the secret that
/// decapsulation finds, are held as the key of the frame's epoch. The epoch of the
/// channel, its members and all other keys stay, and the user is told.
pub proof fn law_an_arriving_key_is_held(
    client: Client,
    identity: Identity,
    server_id: ServerId,
    from_user: UserId,
    epoch: Epoch,
    wrapped_key: String,
    wrapped: Seq<u8>,
    sk: Seq<u8>,
    after: Client,
    effects: Effects,
)
    requires
        event_handled(
            client,
            ServerMessage::KeyMaterial { server_id, from_user, epoch, wrapped_key },
            after,
            effects,
        ),
        base64_decoded(wrapped_key@) == Decoded::Ok(wrapped),
        wrapped.len() == KYBER_CIPHERTEXT_BYTES + 32,
        client.identity == Some(identity),
        base64_decoded(identity.kem_sk_b64@) == Decoded::Ok(sk),
        sk.len() == KYBER_SECRET_KEY_BYTES,
    ensures
        only_server_touched(client, after, server_id),
        after.channels[server_id].members == members_before(client, server_id),
        after.channels[server_id].name == name_before(client, server_id),
        client.channels.contains_key(server_id) ==> after.channels[server_id].epoch
            == client.channels[server_id].epoch,
        after.channels[server_id].keys == keys_before(client, server_id).insert(
            epoch,
            after.channels[server_id].keys[epoch],
        ),
        after.channels[server_id].keys[epoch].len() == 32,
        forall|i: int|
            0 <= i < 32 ==> #[trigger] after.channels[server_id].keys[epoch][i]
                == wrapped[KYBER_CIPHERTEXT_BYTES + i] ^ kyber_decapsulated(
                sk,
                wrapped.take(KYBER_CIPHERTEXT_BYTES as int),
            )[i],
        effects.shown == Some(Notice::KeyRotated { server_id, epoch }),
        effects.out.frames.len() == 0,
        effects.out.failure is None,
{
}

/// What cannot be opened is not held: the state stays, nothing is shown, and the
/// first thing that is wrong is reported.
pub proof fn law_a_bad_key_is_reported(
    client: Client,
    server_id: ServerId,
    from_user: UserId,
    epoch: Epoch,
    wrapped_key: String,
    after: Client,
    effects: Effects,
)
    requires
        event_handled(
            client,
            ServerMessage::KeyMaterial { server_id, from_user, epoch, wrapped_key },
            after,
            effects,
        ),
        match (base64_decoded(wrapped_key@), client.identity) {
            (Ok(wrapped), Some(identity)) => wrapped.len() != KYBER_CIPHERTEXT_BYTES + 32
                || match base64_decoded(identity.kem_sk_b64@) {
                Ok(sk) => sk.len() != KYBER_SECRET_KEY_BYTES,
                Err(_) => true,
            },
            _ => true,
        },
    ensures
        after == client,
        effects.shown is None,
        effects.out.frames.len() == 0,
        effects.out.failure == Some(
            match (base64_decoded(wrapped_key@), client.identity) {
                (Err(reason), _) => seq!["wrapped_key b64"@, reason],
                (Ok(wrapped), None) => seq!["no identity loaded"@],
                (Ok(wrapped), Some(identity)) => match base64_decoded(identity.kem_sk_b64@) {
                    Err(reason) => seq![reason],
                    Ok(sk) => if wrapped.len() != KYBER_CIPHERTEXT_BYTES + 32 {
                        seq![
                            "unwrapping group key"@,
                            "wrapped envelope wrong size: got "@ + decimal_text(wrapped.len())
                                + ", expected "@ + decimal_text(
                                (KYBER_CIPHERTEXT_BYTES + 32) as nat,
                            ),
                        ]
                    } else {
                        seq![
                            "unwrapping group key"@,
                            "invalid Kyber secret key: "@ + ("BadLength { name: \""@ + "SecretKey"@
                                + "\", actual: "@ + decimal_text(sk.len()) + ", expected: "@
                                + decimal_text(KYBER_SECRET_KEY_BYTES as nat) + " }"@),
                        ]
                    },
                },
            },
        ),
{
    let got = effects.out.failure->Some_0;
    match (base64_decoded(wrapped_key@), client.identity) {
        (Err(reason), _) => {
            assert(got =~= seq!["wrapped_key b64"@, reason]);
        },
        (Ok(wrapped), None) => {},
        (Ok(wrapped), Some(identity)) => match base64_decoded(identity.kem_sk_b64@) {
            Err(reason) => {},
            Ok(sk) => {
                let inner = unwrap_outcome(sk, wrapped)->Err_0;
                assert(got =~= seq!["unwrapping group key"@, inner[0]]);
            },
        },
    }
}

/// After joining a server the client knows every member of the relay's list, as
/// the last entry for it says, and those it knew before that the list does not
/// name; where it did not know the server, there are no others. The epoch is the
/// relay's, the keys and the name stay, and so does every other server.
pub proof fn law_a_joined_server_has_all_its_members(
    client: Client,
    server_id: ServerId,
    epoch: Epoch,
    members: Seq<Member>,
)
    ensures
        ({
            let after = server_joined(client, server_id, epoch, members);
            let known = after.channels[server_id].members;
            &&& only_server_touched(client, after, server_id)
            &&& after.channels[server_id].epoch == epoch
            &&& after.channels[server_id].keys == keys_before(client, server_id)
            &&& after.channels[server_id].name == name_before(client, server_id)
            &&& list_is_known(members_before(client, server_id), members, known)
        }),
{
    lemma_list_is_known(client.channel(server_id).at_epoch(epoch), members);
}

/// Whether `known` is what is known of the members once a list was added to what
/// was known before.
pub open spec fn list_is_known(
    before: Map<UserId, Member>,
    list: Seq<Member>,
    known: Map<UserId, Member>,
) -> bool {
    &&& forall|i: int| 0 <= i < list.len() ==> known.contains_key((#[trigger] list[i]).user_id)
    &&& forall|i: int|
        0 <= i < list.len() && (forall|j: int|
            i < j < list.len() ==> (#[trigger] list[j]).user_id != list[i].user_id)
            ==> known[(#[trigger] list[i]).user_id] == list[i]
    &&& forall|user: UserId|
        (forall|i: int| 0 <= i < list.len() ==> (#[trigger] list[i]).user_id != user) ==> (
        #[trigger] known.contains_key(user) <==> before.contains_key(user)) && (
        before.contains_key(user) ==> known[user] == before[user])
}

/// A channel that members of a list were added to.
proof fn lemma_list_is_known(channel: Channel, list: Seq<Member>)
    ensures
        list_is_known(channel.members, list, channel.with_members(list).members),
        channel.with_members(list).epoch == channel.epoch,
        channel.with_members(list).keys == channel.keys,
        channel.with_members(list).name == channel.name,
    decreases list.len(),
{
    let known = channel.with_members(list).members;
    if list.len() > 0 {
        let rest = list.drop_last();
        let before = channel.with_members(rest).members;
        lemma_list_is_known(channel, rest);
        assert(known == before.insert(list.last().user_id, list.last()));
        assert forall|i: int| 0 <= i < rest.len() implies rest[i] == #[trigger] list[i] by {}
        assert forall|i: int| 0 <= i < list.len() implies known.contains_key(
            (#[trigger] list[i]).user_id,
        ) by {
            if i < rest.len() {
                assert(before.contains_key(rest[i].user_id));
            }
        }
        assert forall|i: int|
            0 <= i < list.len() && (forall|j: int|
                i < j < list.len() ==> (#[trigger] list[j]).user_id
                    != list[i].user_id) implies known[(#[trigger] list[i]).user_id] == list[i] by {
            if i < rest.len() {
                assert(list[list.len() - 1].user_id != list[i].user_id);
                assert forall|j: int| i < j < rest.len() implies (#[trigger] rest[j]).user_id
                    != rest[i].user_id by {
                    assert(list[j].user_id != list[i].user_id);
                }
                assert(before[rest[i].user_id] == rest[i]);
            }
        }
        assert forall|user: UserId|
            (forall|i: int| 0 <= i < list.len() ==> (#[trigger] list[i]).user_id != user) implies (
        #[trigger] known.contains_key(user) <==> channel.members.contains_key(user)) && (
        channel.members.contains_key(user) ==> known[user] == channel.members[user]) by {
            assert(list[list.len() - 1].user_id != user);
            assert forall|i: int| 0 <= i < rest.len() implies (#[trigger] rest[i]).user_id
                != user by {
                assert(list[i].user_id != user);
            }
            assert(before.contains_key(user) <==> channel.members.contains_key(user));
        }
    }
}

/// Learning of the members of a server that the client is in adds every entry of
/// the list, as the last entry for it says, and changes nothing else; of a server
/// that it is not in, nothing is learnt.
pub proof fn law_listed_members_are_known(
    client: Client,
    server_id: ServerId,
    members: Seq<Member>,
)
    ensures
        ({
            let after = members_learnt(client, server_id, members);
            if client.channels.contains_key(server_id) {
                &&& only_server_touched(client, after, server_id)
                &&& after.channels[server_id].epoch == client.channels[server_id].epoch
                &&& after.channels[server_id].keys == client.channels[server_id].keys
                &&& after.channels[server_id].name == client.channels[server_id].name
                &&& list_is_known(
                    client.channels[server_id].members,
                    members,
                    after.channels[server_id].members,
                )
            } else {
                after == client
            }
        }),
{
    if client.channels.contains_key(server_id) {
        lemma_list_is_known(client.channels[server_id], members);
    }
}

/// Creating a server sets its epoch and name, adds the creator to its members and
/// the key to its keys, and changes nothing else.
pub proof fn law_a_created_server_has_its_creator_and_key(
    client: Client,
    server_id: ServerId,
    epoch: Epoch,
    name: Seq<char>,
    me: Member,
    key: Seq<u8>,
)
    ensures
        ({
            let after = server_founded(client, server_id, epoch, name, me, key);
            &&& only_server_touched(client, after, server_id)
            &&& after.channels[server_id].epoch == epoch
            &&& after.channels[server_id].name == name
            &&& after.channels[server_id].members == members_before(client, server_id).insert(
                me.user_id,
                me,
            )
            &&& after.channels[server_id].keys == keys_before(client, server_id).insert(epoch, key)
        }),
{
}

/// The creator of a server appears with the identifier and name of the identity
/// and with its public keys as they decode; the first thing that is wrong with
/// these is reported.
pub proof fn law_a_creator_appears_with_its_public_keys(client: Client)
    ensures
        own_member(client) == (match client.identity {
            None => Err::<Member, Messages>(seq!["no identity loaded"@]),
            Some(identity) => match base64_decoded(identity.kem_pk_b64@) {
                Err(reason) => Err(seq![reason]),
                Ok(kem_public_key) => match base64_decoded(identity.sig_pk_b64@) {
                    Err(reason) => Err(seq![reason]),
                    Ok(sig_public_key) => Ok(
                        Member {
                            user_id: identity.user_id,
                            display_name: identity.display_name@,
                            kem_public_key,
                            sig_public_key,
                        },
                    ),
                },
            },
        }),
{
}

/// Leaving a server takes it out of the servers, and changes nothing else.
pub proof fn law_a_left_server_is_gone(client: Client, server_id: ServerId, other: ServerId)
    ensures
        ({
            let after = server_left(client, server_id);
            &&& !after.channels.contains_key(server_id)
            &&& other != server_id ==> (after.channels.contains_key(other)
                <==> client.channels.contains_key(other))
            &&& other != server_id && client.channels.contains_key(other) ==> after.channels[other]
                == client.channels[other]
            &&& after.identity == client.identity
            &&& after.connected == client.connected
            &&& after.session == client.session
            &&& after.pending_rpc == client.pending_rpc
            &&& after.last_rpc == client.last_rpc
        }),
{
}

} // verus!
