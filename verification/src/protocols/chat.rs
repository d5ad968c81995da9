//! Chat: users, rooms and bounded room histories. Delivering messages to
//! connected users is left to the caller, which asks for a room's members.

use vstd::prelude::*;
use crate::common::text::str_eq;
use crate::common::time::Timestamp;
use crate::protocols::server::{is_uuid_v4_simple, uuid_v4_simple};

verus! {

/// Why a chat operation failed.
#[derive(Debug)]
pub enum ChatError {
    Io(std::io::Error),
    UserNotFound,
    RoomNotFound,
    NotAuthorized,
    ConnectionClosed,
    MessageTooLarge,
}

/// A user; `last_seen` is in seconds since the UNIX epoch.
#[derive(Debug, Clone)]
pub struct ChatUser {
    pub user_id: String,
    pub username: String,
    pub display_name: String,
    pub avatar: Option<Vec<u8>>,
    pub is_online: bool,
    pub last_seen: u64,
}

/// A room and its members.
#[derive(Debug, Clone)]
pub struct ChatRoom {
    pub room_id: String,
    pub name: String,
    pub description: Option<String>,
    pub members: Vec<String>,
    pub is_private: bool,
    pub created_at: u64,
}

/// What a message carries.
#[derive(Debug, Clone)]
pub enum MessageContent {
    Text(String),
    Image { data: Vec<u8>, format: String },
    File { name: String, data: Vec<u8>, size: u64 },
    Reaction { emoji: String, to_message_id: String },
    System(String),
}

/// A message in a room.
#[derive(Debug, Clone)]
pub struct ChatMessage {
    pub message_id: String,
    pub room_id: String,
    pub sender_id: String,
    pub sender_name: String,
    pub content: MessageContent,
    pub timestamp: u64,
    pub is_read: bool,
    pub reply_to: Option<String>,
}

/// A message of the chat protocol.
#[derive(Debug, Clone)]
pub enum ChatProtocolMessage {
    SendMessage { room_id: String, content: MessageContent, reply_to: Option<String> },
    ReceiveMessage { message: ChatMessage },
    JoinRoom { room_id: String },
    LeaveRoom { room_id: String },
    CreateRoom { name: String, description: Option<String>, is_private: bool, initial_members: Vec<String> },
    RoomCreated { room: ChatRoom },
    RequestHistory { room_id: String, limit: u32, before_timestamp: Option<u64> },
    HistoryResponse { room_id: String, messages: Vec<ChatMessage> },
    UpdatePresence { user: ChatUser },
    Typing { room_id: String, user_id: String, is_typing: bool },
    MarkRead { room_id: String, message_ids: Vec<String> },
}

/// How a chat server is configured.
#[derive(Debug, Clone, Copy)]
pub struct ChatServerConfig {
    pub max_message_size: usize,
    pub max_history_size: usize,
    pub enable_file_transfer: bool,
    pub max_file_size: u64,
}

impl Default for ChatServerConfig {
    /// Messages of 64 KiB, a thousand messages of history per room, file
    /// transfer on, files of 100 MiB.
    fn default() -> (c: ChatServerConfig)
        ensures
            c.max_message_size == 64 * 1024,
            c.max_history_size == 1000,
            c.enable_file_transfer,
            c.max_file_size == 100 * 1024 * 1024,
    {
        ChatServerConfig {
            max_message_size: 64 * 1024,
            max_history_size: 1000,
            enable_file_transfer: true,
            max_file_size: 100 * 1024 * 1024,
        }
    }
}

/// The position of the first user with identifier `id`.
pub open spec fn user_index(users: Seq<ChatUser>, id: Seq<char>) -> Option<int>
    decreases users.len(),
{
    if users.len() == 0 {
        None
    } else if users[0].user_id@ == id {
        Some(0)
    } else {
        match user_index(users.drop_first(), id) {
            Some(i) => Some(i + 1),
            None => None,
        }
    }
}

/// The user with identifier `id`.
pub open spec fn spec_user(users: Seq<ChatUser>, id: Seq<char>) -> Option<ChatUser> {
    match user_index(users, id) {
        Some(i) => Some(users[i]),
        None => None,
    }
}

/// The position of the first room with identifier `id`.
pub open spec fn room_index(rooms: Seq<(ChatRoom, Seq<ChatMessage>)>, id: Seq<char>) -> Option<int>
    decreases rooms.len(),
{
    if rooms.len() == 0 {
        None
    } else if rooms[0].0.room_id@ == id {
        Some(0)
    } else {
        match room_index(rooms.drop_first(), id) {
            Some(i) => Some(i + 1),
            None => None,
        }
    }
}

/// A room with its history, oldest message first.
pub struct RoomEntry {
    pub room: ChatRoom,
    pub history: Vec<ChatMessage>,
}

/// The users, rooms and histories of a chat server.
pub struct ChatState {
    config: ChatServerConfig,
    users: Vec<ChatUser>,
    rooms: Vec<RoomEntry>,
}

/// Whether `members` names `id`.
pub open spec fn names(members: Seq<String>, id: Seq<char>) -> bool {
    exists|i: int| 0 <= i < members.len() && #[trigger] members[i]@ == id
}

/// Whether `members` names `id`.
fn contains_name(members: &Vec<String>, id: &str) -> (b: bool)
    ensures
        b == names(members@, id@),
{
    let mut i: usize = 0;
    while i < members.len()
        invariant
            i <= members@.len(),
            forall|j: int| 0 <= j < i ==> #[trigger] members@[j]@ != id@,
        decreases members@.len() - i,
    {
        if str_eq(members[i].as_str(), id) {
            return true;
        }
        i = i + 1;
    }
    false
}

/// The history after one more message: the oldest leave beyond the limit.
pub open spec fn spec_trim(history: Seq<ChatMessage>, max: nat) -> Seq<ChatMessage> {
    if history.len() > max { history.skip(history.len() - max) } else { history }
}

impl ChatState {
    /// The configuration.
    pub closed spec fn spec_config(&self) -> ChatServerConfig {
        self.config
    }

    /// The users.
    pub closed spec fn spec_users(&self) -> Seq<ChatUser> {
        self.users@
    }

    /// The rooms with their histories, oldest message first.
    pub closed spec fn spec_rooms(&self) -> Seq<(ChatRoom, Seq<ChatMessage>)> {
        Seq::new(self.rooms@.len(), |i: int| (self.rooms@[i].room, self.rooms@[i].history@))
    }

    /// No users and no rooms.
    pub fn new(config: ChatServerConfig) -> (s: ChatState)
        ensures
            s.spec_config() == config,
            s.spec_users().len() == 0,
            s.spec_rooms().len() == 0,
    {
        ChatState { config, users: Vec::new(), rooms: Vec::new() }
    }

    fn find_user(&self, id: &str) -> (r: Option<usize>)
        ensures
            match r {
                Some(i) => user_index(self.users@, id@) == Some(i as int) && i < self.users@.len(),
                None => user_index(self.users@, id@) is None,
            },
    {
        let mut i: usize = 0;
        assert(self.users@.skip(0) =~= self.users@);
        while i < self.users.len()
            invariant
                i <= self.users@.len(),
                user_index(self.users@, id@) == match user_index(self.users@.skip(i as int), id@) {
                    Some(j) => Some(j + i),
                    None => None::<int>,
                },
            decreases self.users@.len() - i,
        {
            proof {
                assert(self.users@.skip(i as int).drop_first() =~= self.users@.skip(i as int + 1));
            }
            if str_eq(self.users[i].user_id.as_str(), id) {
                return Some(i);
            }
            i = i + 1;
        }
        None
    }

    fn find_room(&self, id: &str) -> (r: Option<usize>)
        ensures
            match r {
                Some(i) => room_index(self.spec_rooms(), id@) == Some(i as int) && i < self.rooms@.len(),
                None => room_index(self.spec_rooms(), id@) is None,
            },
    {
        let ghost rs = self.spec_rooms();
        let mut i: usize = 0;
        assert(rs.skip(0) =~= rs);
        while i < self.rooms.len()
            invariant
                i <= self.rooms@.len(),
                rs == self.spec_rooms(),
                rs.len() == self.rooms@.len(),
                room_index(rs, id@) == match room_index(rs.skip(i as int), id@) {
                    Some(j) => Some(j + i),
                    None => None::<int>,
                },
            decreases self.rooms@.len() - i,
        {
            proof {
                assert(rs.skip(i as int).drop_first() =~= rs.skip(i as int + 1));
                assert(rs.skip(i as int)[0].0 == self.rooms@[i as int].room);
            }
            if str_eq(self.rooms[i].room.room_id.as_str(), id) {
                return Some(i);
            }
            i = i + 1;
        }
        None
    }

    /// Registers a user offline and never seen, replacing a user with the
    /// same identifier.
    pub fn register_user(&mut self, user_id: String, username: String, display_name: String)
        ensures
            spec_user(final(self).spec_users(), user_id@) == Some(
                ChatUser { user_id, username, display_name, avatar: None, is_online: false, last_seen: 0 },
            ),
            final(self).spec_rooms() == old(self).spec_rooms(),
    {
        let user = ChatUser { user_id: user_id.clone(), username, display_name, avatar: None, is_online: false, last_seen: 0 };
        match self.find_user(user_id.as_str()) {
            Some(i) => {
                self.users.set(i, user);
                proof {
                    lemma_user_index_update(old(self).users@, i as int, user);
                }
            },
            None => {
                self.users.push(user);
                proof {
                    lemma_user_index_push(old(self).users@, user);
                }
            },
        }
    }

    /// Marks a user online and seen at `now`; `UserNotFound` for an unknown user.
    pub fn connect_user_at(&mut self, user_id: &str, now: u64) -> (r: Result<(), ChatError>)
        ensures
            final(self).spec_rooms() == old(self).spec_rooms(),
            match user_index(old(self).spec_users(), user_id@) {
                Some(i) => r is Ok && final(self).spec_users() == old(self).spec_users().update(
                    i,
                    ChatUser { is_online: true, last_seen: now, ..old(self).spec_users()[i] },
                ),
                None => (r matches Err(ChatError::UserNotFound)) && final(self).spec_users() == old(self).spec_users(),
            },
    {
        match self.find_user(user_id) {
            Some(i) => {
                let mut users: Vec<ChatUser> = Vec::new();
                std::mem::swap(&mut users, &mut self.users);
                let mut u = users.remove(i);
                u.is_online = true;
                u.last_seen = now;
                users.insert(i, u);
                self.users = users;
                Ok(())
            },
            None => Err(ChatError::UserNotFound),
        }
    }

    /// Marks a user offline and seen at `now`, when known.
    pub fn disconnect_user_at(&mut self, user_id: &str, now: u64)
        ensures
            final(self).spec_rooms() == old(self).spec_rooms(),
            match user_index(old(self).spec_users(), user_id@) {
                Some(i) => final(self).spec_users() == old(self).spec_users().update(
                    i,
                    ChatUser { is_online: false, last_seen: now, ..old(self).spec_users()[i] },
                ),
                None => final(self).spec_users() == old(self).spec_users(),
            },
    {
        match self.find_user(user_id) {
            Some(i) => {
                let mut users: Vec<ChatUser> = Vec::new();
                std::mem::swap(&mut users, &mut self.users);
                let mut u = users.remove(i);
                u.is_online = false;
                u.last_seen = now;
                users.insert(i, u);
                self.users = users;
            },
            None => {},
        }
    }

    /// Creates room `room_id` at `now` with the initial members, and the
    /// creator when not among them, and an empty history.
    pub fn create_room_at(
        &mut self,
        room_id: String,
        creator_id: String,
        name: String,
        description: Option<String>,
        is_private: bool,
        initial_members: Vec<String>,
        now: u64,
    ) -> (room: ChatRoom)
        ensures
            room.room_id == room_id,
            room.name == name,
            room.description == description,
            room.is_private == is_private,
            room.created_at == now,
            room.members@ == if names(initial_members@, creator_id@) { initial_members@ } else { initial_members@.push(creator_id) },
            final(self).spec_rooms().len() == old(self).spec_rooms().len() + 1,
            final(self).spec_rooms().drop_last() == old(self).spec_rooms(),
            same_room(final(self).spec_rooms().last().0, room),
            final(self).spec_rooms().last().1 == Seq::<ChatMessage>::empty(),
            final(self).spec_users() == old(self).spec_users(),
    {
        let mut members = initial_members;
        if !contains_name(&members, creator_id.as_str()) {
            members.push(creator_id);
        }
        let room = ChatRoom { room_id, name, description, members, is_private, created_at: now };
        self.rooms.push(RoomEntry { room: room.clone_room(), history: Vec::new() });
        proof {
            assert(self.spec_rooms().drop_last() =~= old(self).spec_rooms());
        }
        room
    }
}

/// Two byte strings with the same bytes.
fn copy_bytes(b: &Vec<u8>) -> (c: Vec<u8>)
    ensures
        c@ == b@,
{
    let mut c: Vec<u8> = Vec::new();
    crate::common::wire::extend_bytes(&mut c, b.as_slice());
    c
}

/// Two contents with the same kind and equal fields (byte strings by their bytes).
pub open spec fn same_content(a: MessageContent, b: MessageContent) -> bool {
    match (a, b) {
        (MessageContent::Text(x), MessageContent::Text(y)) => x == y,
        (MessageContent::Image { data: d1, format: f1 }, MessageContent::Image { data: d2, format: f2 }) => d1@ == d2@ && f1 == f2,
        (MessageContent::File { name: n1, data: d1, size: s1 }, MessageContent::File { name: n2, data: d2, size: s2 }) =>
            n1 == n2 && d1@ == d2@ && s1 == s2,
        (MessageContent::Reaction { emoji: e1, to_message_id: t1 }, MessageContent::Reaction { emoji: e2, to_message_id: t2 }) =>
            e1 == e2 && t1 == t2,
        (MessageContent::System(x), MessageContent::System(y)) => x == y,
        _ => false,
    }
}

/// Two messages with equal fields and the same content.
pub open spec fn same_message(a: ChatMessage, b: ChatMessage) -> bool {
    &&& a.message_id == b.message_id
    &&& a.room_id == b.room_id
    &&& a.sender_id == b.sender_id
    &&& a.sender_name == b.sender_name
    &&& same_content(a.content, b.content)
    &&& a.timestamp == b.timestamp
    &&& a.is_read == b.is_read
    &&& a.reply_to == b.reply_to
}

/// Two users with equal fields (the avatar by its bytes).
pub open spec fn same_user(a: ChatUser, b: ChatUser) -> bool {
    &&& a.user_id == b.user_id
    &&& a.username == b.username
    &&& a.display_name == b.display_name
    &&& match (a.avatar, b.avatar) {
        (Some(x), Some(y)) => x@ == y@,
        (None, None) => true,
        _ => false,
    }
    &&& a.is_online == b.is_online
    &&& a.last_seen == b.last_seen
}

impl MessageContent {
    /// A copy of the content.
    pub fn copy(&self) -> (c: MessageContent)
        ensures
            same_content(c, *self),
    {
        match self {
            MessageContent::Text(t) => MessageContent::Text(t.clone()),
            MessageContent::Image { data, format } => MessageContent::Image { data: copy_bytes(data), format: format.clone() },
            MessageContent::File { name, data, size } => MessageContent::File { name: name.clone(), data: copy_bytes(data), size: *size },
            MessageContent::Reaction { emoji, to_message_id } => MessageContent::Reaction {
                emoji: emoji.clone(),
                to_message_id: to_message_id.clone(),
            },
            MessageContent::System(t) => MessageContent::System(t.clone()),
        }
    }
}

impl ChatMessage {
    /// A copy of the message.
    pub fn copy(&self) -> (c: ChatMessage)
        ensures
            same_message(c, *self),
    {
        ChatMessage {
            message_id: self.message_id.clone(),
            room_id: self.room_id.clone(),
            sender_id: self.sender_id.clone(),
            sender_name: self.sender_name.clone(),
            content: self.content.copy(),
            timestamp: self.timestamp,
            is_read: self.is_read,
            reply_to: match &self.reply_to {
                Some(r) => Some(r.clone()),
                None => None,
            },
        }
    }
}

impl ChatUser {
    /// A copy of the user.
    pub fn copy(&self) -> (c: ChatUser)
        ensures
            same_user(c, *self),
    {
        ChatUser {
            user_id: self.user_id.clone(),
            username: self.username.clone(),
            display_name: self.display_name.clone(),
            avatar: match &self.avatar {
                Some(a) => Some(copy_bytes(a)),
                None => None,
            },
            is_online: self.is_online,
            last_seen: self.last_seen,
        }
    }
}

/// The messages a history request returns: those before the time limit,
/// newest first, at most `limit` of them.
pub open spec fn spec_history_view(history: Seq<ChatMessage>, limit: nat, before: Option<u64>) -> Seq<ChatMessage> {
    let kept = history.filter(|m: ChatMessage| match before { Some(ts) => m.timestamp < ts, None => true });
    let newest_first = kept.reverse();
    if limit < newest_first.len() { newest_first.take(limit as int) } else { newest_first }
}

/// The known users among `members`, in their order.
pub open spec fn spec_member_users(members: Seq<String>, users: Seq<ChatUser>) -> Seq<ChatUser>
    decreases members.len(),
{
    if members.len() == 0 {
        Seq::empty()
    } else {
        let rest = spec_member_users(members.drop_last(), users);
        match spec_user(users, members.last()@) {
            Some(u) => rest.push(u),
            None => rest,
        }
    }
}

/// Two rooms with equal fields and member lists.
pub open spec fn same_room(a: ChatRoom, b: ChatRoom) -> bool {
    &&& a.room_id == b.room_id
    &&& a.name == b.name
    &&& a.description == b.description
    &&& a.members@ == b.members@
    &&& a.is_private == b.is_private
    &&& a.created_at == b.created_at
}

impl ChatState {
    /// Posts a message from `sender_id` to `room_id` at `now` with the
    /// identifier `message_id`: `RoomNotFound` for an unknown room,
    /// `NotAuthorized` for a sender who is not a member, `UserNotFound` for
    /// an unknown sender. The room's history keeps the newest messages up to
    /// the limit.
    pub fn send_message_at(
        &mut self,
        sender_id: String,
        room_id: String,
        content: MessageContent,
        reply_to: Option<String>,
        message_id: String,
        now: u64,
    ) -> (r: Result<ChatMessage, ChatError>)
        ensures
            final(self).spec_users() == old(self).spec_users(),
            final(self).spec_rooms().len() == old(self).spec_rooms().len(),
            match room_index(old(self).spec_rooms(), room_id@) {
                None => (r matches Err(ChatError::RoomNotFound)) && final(self).spec_rooms() == old(self).spec_rooms(),
                Some(i) => if !names(old(self).spec_rooms()[i].0.members@, sender_id@) {
                    (r matches Err(ChatError::NotAuthorized)) && final(self).spec_rooms() == old(self).spec_rooms()
                } else {
                    match spec_user(old(self).spec_users(), sender_id@) {
                        None => (r matches Err(ChatError::UserNotFound)) && final(self).spec_rooms() == old(self).spec_rooms(),
                        Some(u) => r matches Ok(m) && m.message_id == message_id && m.room_id == room_id
                            && m.sender_id == sender_id && m.sender_name == u.display_name && m.content == content
                            && m.timestamp == now && !m.is_read && m.reply_to == reply_to
                            && final(self).spec_rooms()[i].0 == old(self).spec_rooms()[i].0
                            && final(self).spec_rooms()[i].1.len() == spec_trim(
                                old(self).spec_rooms()[i].1.push(m),
                                old(self).spec_config().max_history_size as nat,
                            ).len()
                            && (forall|k: int| 0 <= k < final(self).spec_rooms()[i].1.len() ==> same_message(
                                #[trigger] final(self).spec_rooms()[i].1[k],
                                spec_trim(old(self).spec_rooms()[i].1.push(m), old(self).spec_config().max_history_size as nat)[k],
                            ))
                            && (forall|j: int| 0 <= j < old(self).spec_rooms().len() && j != i ==> #[trigger] final(self).spec_rooms()[j]
                                == old(self).spec_rooms()[j]),
                    }
                },
            },
    {
        let i = match self.find_room(room_id.as_str()) {
            Some(i) => i,
            None => return Err(ChatError::RoomNotFound),
        };
        if !contains_name(&self.rooms[i].room.members, sender_id.as_str()) {
            return Err(ChatError::NotAuthorized);
        }
        let u = match self.find_user(sender_id.as_str()) {
            Some(u) => u,
            None => return Err(ChatError::UserNotFound),
        };
        let message = ChatMessage {
            message_id,
            room_id,
            sender_id,
            sender_name: self.users[u].display_name.clone(),
            content,
            timestamp: now,
            is_read: false,
            reply_to,
        };
        let stored = message.copy();
        let max = self.config.max_history_size;
        let mut entry = self.rooms.remove(i);
        let ghost old_history = entry.history@;
        let mut history: Vec<ChatMessage> = Vec::new();
        std::mem::swap(&mut history, &mut entry.history);
        history.push(stored);
        let ghost pushed = history@;
        let ghost target = spec_trim(old_history.push(message), max as nat);
        while history.len() > max
            invariant
                pushed.len() == old_history.len() + 1,
                history@.len() <= pushed.len(),
                history@.len() >= max || history@.len() == pushed.len(),
                history@ == pushed.skip(pushed.len() - history@.len()),
            decreases history@.len(),
        {
            let ghost prev = history@;
            history.remove(0);
            proof {
                assert(history@ =~= pushed.skip(pushed.len() - history@.len()));
            }
        }
        proof {
            assert(target.len() == history@.len());
            assert forall|k: int| 0 <= k < history@.len() implies same_message(#[trigger] history@[k], target[k]) by {
                let off = pushed.len() - history@.len();
                assert(history@[k] == pushed[off + k]);
                if off + k < old_history.len() {
                    assert(pushed[off + k] == old_history[off + k]);
                    assert(old_history.push(message)[off + k] == old_history[off + k]);
                } else {
                    assert(pushed[off + k] == stored);
                }
            }
        }
        entry.history = history;
        self.rooms.insert(i, entry);
        proof {
            assert forall|j: int| 0 <= j < old(self).spec_rooms().len() && j != i implies #[trigger] self.spec_rooms()[j]
                == old(self).spec_rooms()[j] by {}
            lemma_user_index_range(old(self).users@, message.sender_id@);
        }
        Ok(message)
    }

    /// A room's history before `before_timestamp` (when given), newest
    /// first, at most `limit` messages; `RoomNotFound` for an unknown room.
    pub fn get_history(&self, room_id: &str, limit: u32, before_timestamp: Option<u64>) -> (r: Result<Vec<ChatMessage>, ChatError>)
        ensures
            match room_index(self.spec_rooms(), room_id@) {
                None => r matches Err(ChatError::RoomNotFound),
                Some(i) => r matches Ok(v) && v@.len() == spec_history_view(self.spec_rooms()[i].1, limit as nat, before_timestamp).len()
                    && forall|k: int| 0 <= k < v@.len() ==> same_message(
                        #[trigger] v@[k],
                        spec_history_view(self.spec_rooms()[i].1, limit as nat, before_timestamp)[k],
                    ),
            },
    {
        let i = match self.find_room(room_id) {
            Some(i) => i,
            None => return Err(ChatError::RoomNotFound),
        };
        let history = &self.rooms[i].history;
        let ghost h = history@;
        let ghost pred = |m: ChatMessage| match before_timestamp { Some(ts) => m.timestamp < ts, None => true };
        let mut kept: Vec<ChatMessage> = Vec::new();
        let mut a: usize = 0;
        while a < history.len()
            invariant
                a <= h.len(),
                h == history@,
                pred == (|m: ChatMessage| match before_timestamp { Some(ts) => m.timestamp < ts, None => true }),
                kept@.len() == h.take(a as int).filter(pred).len(),
                forall|k: int| 0 <= k < kept@.len() ==> same_message(#[trigger] kept@[k], h.take(a as int).filter(pred)[k]),
            decreases h.len() - a,
        {
            proof {
                assert(h.take(a as int + 1).drop_last() =~= h.take(a as int));
                assert(h.take(a as int + 1).last() == h[a as int]);
                reveal(Seq::filter);
            }
            let keep = match before_timestamp {
                Some(ts) => history[a].timestamp < ts,
                None => true,
            };
            if keep {
                kept.push(history[a].copy());
            }
            a = a + 1;
        }
        proof {
            assert(h.take(h.len() as int) =~= h);
        }
        let ghost f = h.filter(pred);
        let n = kept.len();
        let count: usize = if (limit as usize) < n { limit as usize } else { n };
        let mut out: Vec<ChatMessage> = Vec::new();
        let mut k: usize = 0;
        while k < count
            invariant
                k <= count,
                count <= n,
                n == kept@.len(),
                n == f.len(),
                forall|x: int| 0 <= x < n ==> same_message(#[trigger] kept@[x], f[x]),
                out@.len() == k,
                forall|x: int| 0 <= x < k ==> same_message(#[trigger] out@[x], f.reverse()[x]),
            decreases count - k,
        {
            let m = kept[n - 1 - k].copy();
            proof {
                lemma_same_message_trans(m, kept@[n - 1 - k as int], f[n - 1 - k as int]);
            }
            out.push(m);
            k = k + 1;
        }
        Ok(out)
    }
}

impl ChatState {
    /// The known users among a room's members, in member order;
    /// `RoomNotFound` for an unknown room.
    pub fn get_room_members(&self, room_id: &str) -> (r: Result<Vec<ChatUser>, ChatError>)
        ensures
            match room_index(self.spec_rooms(), room_id@) {
                None => r matches Err(ChatError::RoomNotFound),
                Some(i) => r matches Ok(v) && v@.len() == spec_member_users(self.spec_rooms()[i].0.members@, self.spec_users()).len()
                    && forall|k: int| 0 <= k < v@.len() ==> same_user(
                        #[trigger] v@[k],
                        spec_member_users(self.spec_rooms()[i].0.members@, self.spec_users())[k],
                    ),
            },
    {
        let i = match self.find_room(room_id) {
            Some(i) => i,
            None => return Err(ChatError::RoomNotFound),
        };
        let members = &self.rooms[i].room.members;
        let mut out: Vec<ChatUser> = Vec::new();
        let mut a: usize = 0;
        while a < members.len()
            invariant
                a <= members@.len(),
                out@.len() == spec_member_users(members@.take(a as int), self.users@).len(),
                forall|k: int| 0 <= k < out@.len() ==> same_user(#[trigger] out@[k], spec_member_users(members@.take(a as int), self.users@)[k]),
            decreases members@.len() - a,
        {
            proof {
                assert(members@.take(a as int + 1).drop_last() =~= members@.take(a as int));
                assert(members@.take(a as int + 1).last() == members@[a as int]);
            }
            match self.find_user(members[a].as_str()) {
                Some(u) => {
                    proof {
                        lemma_user_index_range(self.users@, members@[a as int]@);
                    }
                    out.push(self.users[u].copy());
                },
                None => {},
            }
            a = a + 1;
        }
        proof {
            assert(members@.take(members@.len() as int) =~= members@);
        }
        Ok(out)
    }

    /// The identifiers of a room's members, when the room exists.
    pub fn room_member_ids(&self, room_id: &str) -> (r: Option<Vec<String>>)
        ensures
            match room_index(self.spec_rooms(), room_id@) {
                None => r is None,
                Some(i) => r matches Some(v) && v@ == self.spec_rooms()[i].0.members@,
            },
    {
        match self.find_room(room_id) {
            Some(i) => Some(clone_names(&self.rooms[i].room.members)),
            None => None,
        }
    }
}

/// A chat client's view: its user, current room and known rooms.
pub struct ChatClient {
    pub user_id: String,
    pub current_room: Option<String>,
    pub rooms: Vec<ChatRoom>,
}

impl ChatClient {
    /// A client for `user_id` in no room.
    pub fn new(user_id: String) -> (c: ChatClient)
        ensures
            c.user_id == user_id,
            c.current_room is None,
            c.rooms@.len() == 0,
    {
        ChatClient { user_id, current_room: None, rooms: Vec::new() }
    }

    /// The request that sends `text` to `room_id`.
    pub fn text_message(&self, room_id: String, text: String, reply_to: Option<String>) -> (m: ChatProtocolMessage)
        ensures
            m == (ChatProtocolMessage::SendMessage { room_id, content: MessageContent::Text(text), reply_to }),
    {
        ChatProtocolMessage::SendMessage { room_id, content: MessageContent::Text(text), reply_to }
    }

    /// Sets the current room.
    pub fn set_current_room(&mut self, room_id: Option<String>)
        ensures
            final(self).current_room == room_id,
            final(self).user_id == old(self).user_id,
    {
        self.current_room = room_id;
    }
}

/// Copies of copies are copies.
proof fn lemma_same_message_trans(a: ChatMessage, b: ChatMessage, c: ChatMessage)
    requires
        same_message(a, b),
        same_message(b, c),
    ensures
        same_message(a, c),
{
}

impl ChatRoom {
    /// A copy of the room.
    pub fn clone_room(&self) -> (c: ChatRoom)
        ensures
            same_room(c, *self),
    {
        ChatRoom {
            room_id: self.room_id.clone(),
            name: self.name.clone(),
            description: match &self.description {
                Some(d) => Some(d.clone()),
                None => None,
            },
            members: clone_names(&self.members),
            is_private: self.is_private,
            created_at: self.created_at,
        }
    }
}

/// A copy of a list of names.
fn clone_names(names: &Vec<String>) -> (c: Vec<String>)
    ensures
        c@ == names@,
{
    let mut c: Vec<String> = Vec::new();
    let mut i: usize = 0;
    while i < names.len()
        invariant
            i <= names@.len(),
            c@ == names@.take(i as int),
        decreases names@.len() - i,
    {
        c.push(names[i].clone());
        proof {
            assert(c@ =~= names@.take(i as int + 1));
        }
        i = i + 1;
    }
    assert(c@ =~= names@);
    c
}

/// Replacing the first user with an identifier keeps every lookup but its own.
proof fn lemma_user_index_update(users: Seq<ChatUser>, i: int, u: ChatUser)
    requires
        user_index(users, u.user_id@) == Some(i),
        0 <= i < users.len(),
    ensures
        forall|k: Seq<char>| #[trigger] user_index(users.update(i, u), k) == user_index(users, k),
    decreases users.len(),
{
    assert forall|k: Seq<char>| #[trigger] user_index(users.update(i, u), k) == user_index(users, k) by {
        lemma_user_index_update_one(users, i, u, k);
    }
}

proof fn lemma_user_index_update_one(users: Seq<ChatUser>, i: int, u: ChatUser, k: Seq<char>)
    requires
        user_index(users, u.user_id@) == Some(i),
        0 <= i < users.len(),
    ensures
        user_index(users.update(i, u), k) == user_index(users, k),
    decreases users.len(),
{
    if i > 0 {
        let rest = users.drop_first();
        assert(users.update(i, u).drop_first() =~= rest.update(i - 1, u));
        assert(users[0].user_id@ != u.user_id@);
        assert(user_index(rest, u.user_id@) == Some(i - 1));
        lemma_user_index_update_one(rest, i - 1, u, k);
        assert(users.update(i, u)[0] == users[0]);
    } else {
        assert(users.update(i, u).drop_first() =~= users.drop_first());
        if users[0].user_id@ != u.user_id@ {
            lemma_user_index_range(users.drop_first(), u.user_id@);
        }
    }
}

/// A found position is in range and holds the identifier.
proof fn lemma_user_index_range(users: Seq<ChatUser>, id: Seq<char>)
    ensures
        user_index(users, id) matches Some(i) ==> 0 <= i < users.len() && users[i].user_id@ == id,
    decreases users.len(),
{
    if users.len() > 0 && users[0].user_id@ != id {
        lemma_user_index_range(users.drop_first(), id);
    }
}

/// Appending a user with a new identifier keeps every other lookup.
proof fn lemma_user_index_push(users: Seq<ChatUser>, u: ChatUser)
    requires
        user_index(users, u.user_id@) is None,
    ensures
        user_index(users.push(u), u.user_id@) == Some(users.len() as int),
        forall|k: Seq<char>| k != u.user_id@ ==> #[trigger] user_index(users.push(u), k) == user_index(users, k),
    decreases users.len(),
{
    if users.len() > 0 {
        assert(users.push(u).drop_first() =~= users.drop_first().push(u));
        lemma_user_index_push(users.drop_first(), u);
        assert(users.push(u)[0] == users[0]);
        assert forall|k: Seq<char>| k != u.user_id@ implies #[trigger] user_index(users.push(u), k) == user_index(users, k) by {
            assert(user_index(users.drop_first().push(u), k) == user_index(users.drop_first(), k));
        }
    } else {
        assert(users.push(u).drop_first() =~= Seq::<ChatUser>::empty());
        assert forall|k: Seq<char>| k != u.user_id@ implies #[trigger] user_index(users.push(u), k) == user_index(users, k) by {
            assert(users.push(u)[0] == u);
            assert(user_index(Seq::<ChatUser>::empty(), k) is None);
        }
    }
}

/// A fresh room identifier: "room_" and a random version-4 UUID in its
/// simple form.
pub fn new_room_id() -> (id: String)
    ensures
        exists|u: Seq<char>| is_uuid_v4_simple(u) && id@ == "room_"@ + u,
{
    let u = uuid_v4_simple();
    let id = String::from_str("room_").concat(u.as_str());
    assert(id@ == "room_"@ + u@);
    id
}

/// A fresh message identifier: "msg_" and a random version-4 UUID in its
/// simple form.
pub fn new_message_id() -> (id: String)
    ensures
        exists|u: Seq<char>| is_uuid_v4_simple(u) && id@ == "msg_"@ + u,
{
    let u = uuid_v4_simple();
    let id = String::from_str("msg_").concat(u.as_str());
    assert(id@ == "msg_"@ + u@);
    id
}

/// Seconds since the UNIX epoch, on the system clock.
fn now_secs() -> u64 {
    Timestamp::now().duration_since_epoch().as_secs()
}

impl ChatState {
    /// Creates a room with a fresh identifier, now; see `create_room_at`.
    pub fn create_room(
        &mut self,
        creator_id: String,
        name: String,
        description: Option<String>,
        is_private: bool,
        initial_members: Vec<String>,
    ) -> (r: Result<ChatRoom, ChatError>)
        ensures
            r matches Ok(room) && room.name == name && room.description == description
                && room.is_private == is_private
                && (exists|u: Seq<char>| room.room_id@ == "room_"@ + u)
                && room.members@ == (if names(initial_members@, creator_id@) { initial_members@ } else { initial_members@.push(creator_id) })
                && final(self).spec_rooms().len() == old(self).spec_rooms().len() + 1
                && final(self).spec_rooms().drop_last() == old(self).spec_rooms()
                && same_room(final(self).spec_rooms().last().0, room)
                && final(self).spec_rooms().last().1 == Seq::<ChatMessage>::empty(),
            final(self).spec_users() == old(self).spec_users(),
    {
        let room_id = new_room_id();
        let now = now_secs();
        Ok(self.create_room_at(room_id, creator_id, name, description, is_private, initial_members, now))
    }

    /// Posts a message with a fresh identifier, now; refused exactly as
    /// `send_message_at` refuses.
    pub fn send_message(
        &mut self,
        sender_id: String,
        room_id: String,
        content: MessageContent,
        reply_to: Option<String>,
    ) -> (r: Result<ChatMessage, ChatError>)
        ensures
            final(self).spec_users() == old(self).spec_users(),
            final(self).spec_rooms().len() == old(self).spec_rooms().len(),
            match room_index(old(self).spec_rooms(), room_id@) {
                None => (r matches Err(ChatError::RoomNotFound)) && final(self).spec_rooms() == old(self).spec_rooms(),
                Some(i) => if !names(old(self).spec_rooms()[i].0.members@, sender_id@) {
                    (r matches Err(ChatError::NotAuthorized)) && final(self).spec_rooms() == old(self).spec_rooms()
                } else {
                    match spec_user(old(self).spec_users(), sender_id@) {
                        None => (r matches Err(ChatError::UserNotFound)) && final(self).spec_rooms() == old(self).spec_rooms(),
                        Some(u) => r matches Ok(m) && (exists|x: Seq<char>| m.message_id@ == "msg_"@ + x)
                            && m.room_id == room_id && m.sender_id == sender_id && m.sender_name == u.display_name
                            && m.content == content && !m.is_read && m.reply_to == reply_to
                            && final(self).spec_rooms()[i].0 == old(self).spec_rooms()[i].0
                            && final(self).spec_rooms()[i].1.len() == spec_trim(
                                old(self).spec_rooms()[i].1.push(m),
                                old(self).spec_config().max_history_size as nat,
                            ).len()
                            && (forall|k: int| 0 <= k < final(self).spec_rooms()[i].1.len() ==> same_message(
                                #[trigger] final(self).spec_rooms()[i].1[k],
                                spec_trim(old(self).spec_rooms()[i].1.push(m), old(self).spec_config().max_history_size as nat)[k],
                            ))
                            && (forall|j: int| 0 <= j < old(self).spec_rooms().len() && j != i ==> #[trigger] final(self).spec_rooms()[j]
                                == old(self).spec_rooms()[j]),
                    }
                },
            },
    {
        let message_id = new_message_id();
        let now = now_secs();
        self.send_message_at(sender_id, room_id, content, reply_to, message_id, now)
    }
}

proof fn lemma_filter_all<A>(h: Seq<A>, p: spec_fn(A) -> bool)
    requires
        forall|i: int| 0 <= i < h.len() ==> p(#[trigger] h[i]),
    ensures
        h.filter(p) == h,
    decreases h.len(),
{
    reveal(Seq::filter);
    if h.len() > 0 {
        lemma_filter_all(h.drop_last(), p);
        assert(h.drop_last().push(h.last()) =~= h);
    }
}

proof fn lemma_filter_last<A>(h: Seq<A>, p: spec_fn(A) -> bool)
    ensures
        h.filter(p).len() > 0 <==> exists|i: int| 0 <= i < h.len() && p(#[trigger] h[i]),
        h.filter(p).len() > 0 ==> exists|j: int|
            0 <= j < h.len() && #[trigger] h[j] == h.filter(p).last() && p(h[j])
                && forall|i: int| j < i < h.len() ==> !p(#[trigger] h[i]),
    decreases h.len(),
{
    reveal(Seq::filter);
    if h.len() > 0 {
        let d = h.drop_last();
        lemma_filter_last(d, p);
        let n = h.len() - 1;
        if p(h.last()) {
            assert(h[n] == h.filter(p).last());
        } else {
            assert(h.filter(p) == d.filter(p));
            if d.filter(p).len() > 0 {
                let j = choose|j: int|
                    0 <= j < d.len() && #[trigger] d[j] == d.filter(p).last() && p(d[j])
                        && forall|i: int| j < i < d.len() ==> !p(#[trigger] d[i]);
                assert(h[j] == d[j]);
                assert forall|i: int| j < i < h.len() implies !p(#[trigger] h[i]) by {
                    if i < n {
                        assert(h[i] == d[i]);
                    }
                }
            }
            if exists|i: int| 0 <= i < h.len() && p(#[trigger] h[i]) {
                let i = choose|i: int| 0 <= i < h.len() && p(#[trigger] h[i]);
                assert(i < n);
                assert(d[i] == h[i]);
            }
        }
    }
}

/// Without a time filter, the history view is the newest `limit` messages,
/// newest first: position `k` holds the message `k` places from the end.
pub proof fn lemma_history_newest_first(history: Seq<ChatMessage>, limit: nat)
    ensures
        spec_history_view(history, limit, None).len() == if limit < history.len() { limit } else { history.len() },
        forall|k: int|
            0 <= k < spec_history_view(history, limit, None).len() ==> #[trigger] spec_history_view(
                history,
                limit,
                None,
            )[k] == history[history.len() - 1 - k],
{
    let before: Option<u64> = None;
    let p = |m: ChatMessage| match before { Some(ts) => m.timestamp < ts, None => true };
    lemma_filter_all(history, p);
    let kept = history.filter(p);
    assert(kept == history);
    let v = spec_history_view(history, limit, None);
    assert(v == (if limit < kept.reverse().len() { kept.reverse().take(limit as int) } else { kept.reverse() }));
    assert forall|k: int| 0 <= k < v.len() implies #[trigger] v[k] == history[history.len() - 1 - k] by {
        assert(v[k] == kept.reverse()[k]);
    }
}

/// With a time filter, every message returned is older than the bound, the
/// view is empty exactly when `limit` is zero or no message is older than
/// the bound, and otherwise its first message is the newest one older than
/// the bound.
pub proof fn lemma_history_filtered_newest(history: Seq<ChatMessage>, limit: nat, ts: u64)
    ensures
        forall|k: int|
            0 <= k < spec_history_view(history, limit, Some(ts)).len() ==> (#[trigger] spec_history_view(
                history,
                limit,
                Some(ts),
            )[k]).timestamp < ts,
        spec_history_view(history, limit, Some(ts)).len() > 0 <==> (limit > 0 && exists|i: int|
            0 <= i < history.len() && (#[trigger] history[i]).timestamp < ts),
        spec_history_view(history, limit, Some(ts)).len() > 0 ==> exists|j: int|
            0 <= j < history.len() && #[trigger] history[j] == spec_history_view(history, limit, Some(ts))[0]
                && history[j].timestamp < ts && forall|i: int| j < i < history.len() ==> (#[trigger] history[i]).timestamp
                >= ts,
{
    let before: Option<u64> = Some(ts);
    let p = |m: ChatMessage| match before { Some(ts) => m.timestamp < ts, None => true };
    let kept = history.filter(p);
    let v = spec_history_view(history, limit, Some(ts));
    assert(v == (if limit < kept.reverse().len() { kept.reverse().take(limit as int) } else { kept.reverse() }));
    lemma_filter_last(history, p);
    assert forall|k: int| 0 <= k < v.len() implies (#[trigger] v[k]).timestamp < ts by {
        assert(v[k] == kept.reverse()[k]);
        assert(v[k] == kept[kept.len() - 1 - k]);
        history.lemma_filter_pred(p, kept.len() - 1 - k);
    }
    if exists|i: int| 0 <= i < history.len() && (#[trigger] history[i]).timestamp < ts {
        let i = choose|i: int| 0 <= i < history.len() && (#[trigger] history[i]).timestamp < ts;
        assert(p(history[i]));
    }
    if kept.len() > 0 {
        assert(kept.reverse()[0] == kept.last());
        let j = choose|j: int|
            0 <= j < history.len() && #[trigger] history[j] == kept.last() && p(history[j])
                && forall|i: int| j < i < history.len() ==> !p(#[trigger] history[i]);
        assert forall|i: int| j < i < history.len() implies (#[trigger] history[i]).timestamp >= ts by {
            assert(!p(history[i]));
        }
    }
}

} // verus!