//! What the client keeps in memory.
use std::collections::{BTreeMap, HashMap};
use vstd::prelude::*;
use vstd::std_specs::iter::IteratorSpec;

use crate::crypto::GroupKey;
use crate::error::ChatError;
use crate::identity::Identity;
use crate::protocol::{members_of, Epoch, Member, MemberInfo, ServerId, UserId};

verus! {

/// A server that the client is in.
pub struct ChannelView {
    /// The members that the client knows of, with their public keys.
    pub members: HashMap<UserId, MemberInfo>,
    /// The last epoch that the relay told.
    pub epoch: Epoch,
    /// The group keys that the client holds, by epoch. Old keys stay, so that
    /// older messages of the session can still be read.
    pub keys: BTreeMap<Epoch, GroupKey>,
    /// The name of the server.
    pub name: String,
}

/// What a [`ChannelView`] says.
#[verifier::ext_equal]
pub struct Channel {
    pub members: Map<UserId, Member>,
    pub epoch: Epoch,
    pub keys: Map<Epoch, Seq<u8>>,
    pub name: Seq<char>,
}

impl View for ChannelView {
    type V = Channel;

    open spec fn view(&self) -> Channel {
        Channel {
            members: self.members@.map_values(|info: MemberInfo| info@),
            epoch: self.epoch,
            keys: self.keys@.map_values(|key: GroupKey| key@),
            name: self.name@,
        }
    }
}

impl Channel {
    /// A channel of which nothing is known yet.
    pub open spec fn unknown() -> Channel {
        Channel { members: Map::empty(), epoch: 0, keys: Map::empty(), name: Seq::empty() }
    }

    /// Whether each member is filed under its own identifier.
    pub open spec fn well_filed(self) -> bool {
        forall|user_id: UserId| #[trigger]
            self.members.contains_key(user_id) ==> self.members[user_id].user_id == user_id
    }

    /// Whether a key of an epoch before the current one is held.
    pub open spec fn holds_earlier_key(self) -> bool {
        exists|epoch: Epoch| epoch < self.epoch && #[trigger] self.keys.contains_key(epoch)
    }

    /// This channel at another epoch.
    pub open spec fn at_epoch(self, epoch: Epoch) -> Channel {
        Channel { epoch, ..self }
    }

    /// This channel under another name.
    pub open spec fn named(self, name: Seq<char>) -> Channel {
        Channel { name, ..self }
    }

    /// This channel with a member added or replaced.
    pub open spec fn with_member(self, member: Member) -> Channel {
        Channel { members: self.members.insert(member.user_id, member), ..self }
    }

    /// This channel with the members of a list added or replaced, in the order
    /// of the list.
    pub open spec fn with_members(self, list: Seq<Member>) -> Channel
        decreases list.len(),
    {
        if list.len() == 0 {
            self
        } else {
            self.with_members(list.drop_last()).with_member(list.last())
        }
    }

    /// This channel without a member.
    pub open spec fn without_member(self, user_id: UserId) -> Channel {
        Channel { members: self.members.remove(user_id), ..self }
    }

    /// This channel with a group key added or replaced.
    pub open spec fn with_key(self, epoch: Epoch, key: Seq<u8>) -> Channel {
        Channel { keys: self.keys.insert(epoch, key), ..self }
    }

    /// This channel without any group key.
    pub open spec fn without_keys(self) -> Channel {
        Channel { keys: Map::empty(), ..self }
    }
}

impl Default for ChannelView {
    fn default() -> (channel: ChannelView)
        ensures
            channel@ == Channel::unknown(),
    {
        let channel = ChannelView {
            members: HashMap::new(),
            epoch: 0,
            keys: BTreeMap::new(),
            name: String::new(),
        };
        assert(channel@ =~= Channel::unknown());
        channel
    }
}

impl ChannelView {
    /// Adds or replaces a member.
    pub fn add_member(&mut self, info: MemberInfo)
        ensures
            final(self)@ == old(self)@.with_member(info@),
    {
        self.members.insert(info.user_id, info);
        assert(self@ =~= old(self)@.with_member(info@));
    }

    /// Adds or replaces the members of a list, in its order.
    pub fn add_members(&mut self, list: &Vec<MemberInfo>)
        ensures
            final(self)@ == old(self)@.with_members(members_of(list@)),
    {
        let ghost before = self@;
        let ghost all = members_of(list@);
        let mut i: usize = 0;
        assert(all.take(0) =~= Seq::<Member>::empty());
        while i < list.len()
            invariant
                i <= list.len(),
                all == members_of(list@),
                self@ == before.with_members(all.take(i as int)),
            decreases list.len() - i,
        {
            self.add_member(list[i].clone());
            proof {
                assert(all.take(i + 1).drop_last() =~= all.take(i as int));
                assert(all.take(i + 1).last() == list[i as int]@);
            }
            i += 1;
        }
        assert(all.take(i as int) =~= all);
    }

    /// Removes a member, if it is there.
    pub fn remove_member(&mut self, user_id: UserId)
        ensures
            final(self)@ == old(self)@.without_member(user_id),
    {
        self.members.remove(&user_id);
        assert(self@ =~= old(self)@.without_member(user_id));
    }

    /// Adds or replaces a group key.
    pub fn add_key(&mut self, epoch: Epoch, key: GroupKey)
        ensures
            final(self)@ == old(self)@.with_key(epoch, key@),
    {
        self.keys.insert(epoch, key);
        assert(self@ =~= old(self)@.with_key(epoch, key@));
    }

    /// Forgets all group keys.
    pub fn forget_keys(&mut self)
        ensures
            final(self)@ == old(self)@.without_keys(),
    {
        self.keys.clear();
        assert(self@ =~= old(self)@.without_keys());
    }

    /// The group key of an epoch, if the client holds it.
    pub fn key_at(&self, epoch: Epoch) -> (key: Option<GroupKey>)
        ensures
            match key {
                Some(key) => self@.keys.contains_key(epoch) && self@.keys[epoch] == key@,
                None => !self@.keys.contains_key(epoch),
            },
    {
        match self.keys.get(&epoch) {
            Some(key) => Some(*key),
            None => None,
        }
    }

    /// Whether the client holds a key of an epoch before the current one.
    pub fn holds_earlier_key(&self) -> (held: bool)
        ensures
            held == self@.holds_earlier_key(),
    {
        let keys = self.keys.keys();
        let ghost all = keys.remaining().unref();
        assert(self@.keys.dom() =~= self.keys@.dom());
        for epoch in iter: keys
            invariant
                iter.seq().unref() == all,
                all.to_set() == self@.keys.dom(),
                forall|i: int| 0 <= i < iter.index() ==> #[trigger] all[i] >= self.epoch,
        {
            assert(*epoch == all[iter.index()]);
            if *epoch < self.epoch {
                assert(all.to_set().contains(*epoch));
                assert(self@.keys.contains_key(*epoch));
                return true;
            }
        }
        assert forall|epoch: Epoch| #[trigger] self@.keys.contains_key(epoch) implies epoch
            >= self@.epoch by {
            assert(all.to_set().contains(epoch));
        }
        false
    }

    /// What is known of a member.
    pub fn member(&self, user_id: UserId) -> (info: Option<&MemberInfo>)
        ensures
            match info {
                Some(info) => self@.members.contains_key(user_id) && self@.members[user_id]
                    == info@,
                None => !self@.members.contains_key(user_id),
            },
    {
        self.members.get(&user_id)
    }
}

/// The state of the client.
pub struct ClientState {
    /// The identity in use, once one is loaded or registered.
    pub identity: Option<Identity>,
    /// The servers that the client is in.
    pub channels: HashMap<ServerId, ChannelView>,
    /// Whether there is a connection to send on.
    pub connected: bool,
    /// The number of the last session that was opened.
    pub session: u64,
    /// The number of the request that waits for its reply. There is at most one.
    pub pending_rpc: Option<u64>,
    /// The number of the last request that was started.
    pub last_rpc: u64,
}

/// What a [`ClientState`] says.
#[verifier::ext_equal]
pub struct Client {
    pub identity: Option<Identity>,
    pub channels: Map<ServerId, Channel>,
    pub connected: bool,
    pub session: u64,
    pub pending_rpc: Option<u64>,
    pub last_rpc: u64,
}

impl View for ClientState {
    type V = Client;

    open spec fn view(&self) -> Client {
        Client {
            identity: self.identity,
            channels: self.channels@.map_values(|channel: ChannelView| channel@),
            connected: self.connected,
            session: self.session,
            pending_rpc: self.pending_rpc,
            last_rpc: self.last_rpc,
        }
    }
}

impl Client {
    /// Whether in each channel each member is filed under its own identifier.
    pub open spec fn well_filed(self) -> bool {
        forall|server_id: ServerId| #[trigger]
            self.channels.contains_key(server_id) ==> self.channels[server_id].well_filed()
    }

    /// What is known of a server; nothing, where the client is not in it.
    pub open spec fn channel(self, server_id: ServerId) -> Channel {
        if self.channels.contains_key(server_id) {
            self.channels[server_id]
        } else {
            Channel::unknown()
        }
    }

    /// This client with what it knows of a server replaced.
    pub open spec fn with_channel(self, server_id: ServerId, channel: Channel) -> Client {
        Client { channels: self.channels.insert(server_id, channel), ..self }
    }

    /// This client with another identity.
    pub open spec fn with_identity(self, identity: Option<Identity>) -> Client {
        Client { identity, ..self }
    }

    /// Whether the client holds the group key of an epoch of a server.
    pub open spec fn holds_key(self, server_id: ServerId, epoch: Epoch) -> bool {
        self.channels.contains_key(server_id) && self.channels[server_id].keys.contains_key(epoch)
    }
}

impl ClientState {
    /// The state at launch.
    pub fn new() -> (state: ClientState)
        ensures
            state@ == (Client {
                identity: None,
                channels: Map::empty(),
                connected: false,
                session: 0,
                pending_rpc: None,
                last_rpc: 0,
            }),
    {
        let state = ClientState {
            identity: None,
            channels: HashMap::new(),
            connected: false,
            session: 0,
            pending_rpc: None,
            last_rpc: 0,
        };
        assert(state@.channels =~= Map::empty());
        state
    }

    /// The identity in use.
    pub fn require_identity(&self) -> (identity: Result<&Identity, ChatError>)
        ensures
            match self@.identity {
                Some(mine) => identity matches Ok(identity) && *identity == mine,
                None => identity matches Err(error) && error@ == seq!["no identity loaded"@],
            },
    {
        match &self.identity {
            Some(identity) => Ok(identity),
            None => Err(ChatError::new("no identity loaded".to_string())),
        }
    }

    /// What is known of a server that the client is in.
    pub fn channel(&self, server_id: ServerId) -> (channel: Option<&ChannelView>)
        ensures
            match channel {
                Some(channel) => self@.channels.contains_key(server_id)
                    && self@.channels[server_id] == channel@,
                None => !self@.channels.contains_key(server_id),
            },
    {
        self.channels.get(&server_id)
    }

    /// Takes a channel out of the state to work on it; an unknown one where the
    /// client is not in the server.
    pub(crate) fn take_channel(&mut self, server_id: ServerId) -> (channel: ChannelView)
        ensures
            channel@ == old(self)@.channel(server_id),
            final(self)@ == (Client {
                channels: old(self)@.channels.remove(server_id),
                ..old(self)@
            }),
    {
        let taken = self.channels.remove(&server_id);
        assert(self@.channels =~= old(self)@.channels.remove(server_id));
        match taken {
            Some(channel) => channel,
            None => ChannelView::default(),
        }
    }

    /// Puts a channel into the state.
    pub(crate) fn put_channel(&mut self, server_id: ServerId, channel: ChannelView)
        ensures
            final(self)@ == old(self)@.with_channel(server_id, channel@),
    {
        self.channels.insert(server_id, channel);
        assert(self@.channels =~= old(self)@.channels.insert(server_id, channel@));
    }
}

/// The number that follows `n`; after the last comes the first again.
pub open spec fn next_number(n: u64) -> u64 {
    if n == u64::MAX {
        0
    } else {
        (n + 1) as u64
    }
}

/// The number that follows `n`.
pub fn following(n: u64) -> (next: u64)
    ensures
        next == next_number(n),
{
    if n == u64::MAX {
        0
    } else {
        n + 1
    }
}

/// The number that comes `k` places after `n`.
pub open spec fn number_after(n: u64, k: nat) -> u64
    decreases k,
{
    if k == 0 {
        n
    } else {
        next_number(number_after(n, (k - 1) as nat))
    }
}

/// A number does not come back before all others have been used.
pub proof fn law_numbers_do_not_repeat(n: u64, k: nat)
    requires
        0 < k <= u64::MAX,
    ensures
        number_after(n, k) != n,
{
    lemma_number_after(n, k);
}

/// The number `k` places after `n`, computed.
proof fn lemma_number_after(n: u64, k: nat)
    requires
        k <= u64::MAX,
    ensures
        number_after(n, k) == (if n + k <= u64::MAX {
            n + k
        } else {
            n + k - u64::MAX - 1
        }),
    decreases k,
{
    if k > 0 {
        lemma_number_after(n, (k - 1) as nat);
    }
}

/// Whether `order` lists every element of `set` once.
pub open spec fn lists_once(order: Seq<u128>, set: Set<u128>) -> bool {
    order.no_duplicates() && order.to_set() == set
}

/// The keys of a map, each once, in the order in which the map is walked.
pub fn walk<V>(map: &HashMap<u128, V>) -> (order: Vec<u128>)
    ensures
        lists_once(order@, map@.dom()),
{
    let mut order: Vec<u128> = Vec::new();
    let keys = map.keys();
    let ghost all = keys.remaining().unref();
    for key in iter: keys
        invariant
            iter.seq().unref() == all,
            order@ == all.take(iter.index()),
    {
        order.push(*key);
    }
    assert(order@ =~= all);
    order
}

/// Adding a list of members files each under its own identifier, keeps the other
/// members, and the last entry for a member counts.
pub proof fn law_members_are_filed(channel: Channel, list: Seq<Member>)
    requires
        channel.well_filed(),
    ensures
        channel.with_members(list).well_filed(),
        channel.with_members(list) == (Channel {
            members: channel.with_members(list).members,
            ..channel
        }),
        forall|user_id: UserId|
            channel.members.contains_key(user_id) ==> #[trigger] channel.with_members(
                list,
            ).members.contains_key(user_id),
        forall|i: int|
            0 <= i < list.len() ==> channel.with_members(list).members.contains_key(
                (#[trigger] list[i]).user_id,
            ),
        list.len() > 0 ==> channel.with_members(list).members[list.last().user_id] == list.last(),
    decreases list.len(),
{
    if list.len() > 0 {
        law_members_are_filed(channel, list.drop_last());
        assert forall|i: int| 0 <= i < list.len() implies channel.with_members(
            list,
        ).members.contains_key((#[trigger] list[i]).user_id) by {
            if i < list.len() - 1 {
                assert(list.drop_last()[i] == list[i]);
            }
        }
    }
}

} // verus!
