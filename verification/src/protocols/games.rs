//! Multiplayer games: rooms of players with a capacity, and the server's
//! set of rooms. Game state with real-valued positions stays with the
//! caller.

use vstd::prelude::*;
use crate::common::net::SocketAddr;
use crate::common::text::str_eq;
use crate::common::time::Timestamp;

verus! {

/// Why a game operation failed.
#[derive(Debug)]
pub enum GamesError {
    Io(std::io::Error),
    ConnectionClosed,
    InvalidState,
    RoomNotFound,
    PlayerNotFound,
}

/// How a room is configured.
#[derive(Debug, Clone, Copy)]
pub struct RoomConfig {
    pub max_players: usize,
    pub tick_rate: u32,
    pub state_buffer_size: usize,
}

impl Default for RoomConfig {
    /// Sixteen players, sixty ticks a second, two seconds of states.
    fn default() -> (c: RoomConfig)
        ensures
            c.max_players == 16,
            c.tick_rate == 60,
            c.state_buffer_size == 120,
    {
        RoomConfig { max_players: 16, tick_rate: 60, state_buffer_size: 120 }
    }
}

/// A player in a room; `last_seen` is in seconds since the UNIX epoch.
#[derive(Debug, Clone)]
pub struct PlayerConnection {
    pub player_id: String,
    pub addr: SocketAddr,
    pub ping: u64,
    pub last_seen: u64,
}

/// The players after `player_id` at `addr`, seen at `now`, joins `players`:
/// a player with that identifier is replaced, otherwise the new one is added
/// at the end.
pub open spec fn added_player(players: Seq<PlayerConnection>, player_id: String, addr: SocketAddr, now: u64) -> Seq<PlayerConnection> {
    let p = PlayerConnection { player_id, addr, ping: 0, last_seen: now };
    match player_index(players, player_id@) {
        Some(i) => players.update(i, p),
        None => players.push(p),
    }
}

/// The position of the player `id`, if present.
pub open spec fn player_index(players: Seq<PlayerConnection>, id: Seq<char>) -> Option<int>
    decreases players.len(),
{
    if players.len() == 0 {
        None
    } else if players.last().player_id@ == id {
        Some(players.len() - 1)
    } else {
        player_index(players.drop_last(), id)
    }
}

/// A game room and its players.
pub struct GameRoom {
    room_id: String,
    config: RoomConfig,
    players: Vec<PlayerConnection>,
    current_tick: u64,
}

impl GameRoom {
    /// The room's name.
    pub closed spec fn spec_room_id(&self) -> String {
        self.room_id
    }

    /// The room's name.
    pub fn room_id(&self) -> (id: &String)
        ensures
            *id == self.spec_room_id(),
    {
        &self.room_id
    }

    /// The configuration.
    pub closed spec fn spec_config(&self) -> RoomConfig {
        self.config
    }

    /// The players.
    pub closed spec fn spec_players(&self) -> Seq<PlayerConnection> {
        self.players@
    }

    /// An empty room.
    pub fn new(room_id: String, config: RoomConfig) -> (r: GameRoom)
        ensures
            r.spec_room_id() == room_id,
            r.spec_config() == config,
            r.spec_players().len() == 0,
    {
        GameRoom { room_id, config, players: Vec::new(), current_tick: 0 }
    }

    fn find(&self, id: &str) -> (r: Option<usize>)
        ensures
            match r {
                Some(i) => player_index(self.spec_players(), id@) == Some(i as int) && i < self.spec_players().len(),
                None => player_index(self.spec_players(), id@) is None,
            },
    {
        let mut i: usize = self.players.len();
        assert(self.players@.take(i as int) =~= self.players@);
        while i > 0 && !str_eq(self.players[i - 1].player_id.as_str(), id)
            invariant
                i <= self.players@.len(),
                player_index(self.players@, id@) == player_index(self.players@.take(i as int), id@),
            decreases i,
        {
            proof {
                assert(self.players@.take(i as int).drop_last() =~= self.players@.take(i as int - 1));
            }
            i = i - 1;
        }
        if i == 0 {
            None
        } else {
            proof {
                assert(self.players@.take(i as int).last() == self.players@[i as int - 1]);
                lemma_player_index_range(self.players@.take(i as int), id@);
            }
            Some(i - 1)
        }
    }

    /// Adds a player seen at `now`, replacing one with the same identifier;
    /// `InvalidState` when the room is full (even for a player already in it).
    pub fn add_player_at(&mut self, player_id: String, addr: SocketAddr, now: u64) -> (r: Result<(), GamesError>)
        ensures
            final(self).spec_room_id() == old(self).spec_room_id(),
            final(self).spec_config() == old(self).spec_config(),
            old(self).spec_players().len() >= old(self).spec_config().max_players ==> (r matches Err(GamesError::InvalidState))
                && final(self).spec_players() == old(self).spec_players(),
            old(self).spec_players().len() < old(self).spec_config().max_players ==> r is Ok && {
                let p = PlayerConnection { player_id, addr, ping: 0, last_seen: now };
                match player_index(old(self).spec_players(), player_id@) {
                    Some(i) => final(self).spec_players() == old(self).spec_players().update(i, p),
                    None => final(self).spec_players() == old(self).spec_players().push(p),
                }
            },
    {
        if self.players.len() >= self.config.max_players {
            return Err(GamesError::InvalidState);
        }
        let found = self.find(player_id.as_str());
        let p = PlayerConnection { player_id, addr, ping: 0, last_seen: now };
        match found {
            Some(i) => {
                self.players.set(i, p);
            },
            None => {
                self.players.push(p);
            },
        }
        Ok(())
    }

    /// Adds a player seen now: `add_player_at` with the clock's reading in
    /// seconds, which can be any value.
    pub fn add_player(&mut self, player_id: String, addr: SocketAddr) -> (r: Result<(), GamesError>)
        ensures
            final(self).spec_room_id() == old(self).spec_room_id(),
            final(self).spec_config() == old(self).spec_config(),
            old(self).spec_players().len() >= old(self).spec_config().max_players ==> (r matches Err(GamesError::InvalidState))
                && final(self).spec_players() == old(self).spec_players(),
            old(self).spec_players().len() < old(self).spec_config().max_players ==> r is Ok && exists|now: u64|
                #[trigger] added_player(old(self).spec_players(), player_id, addr, now) == final(self).spec_players(),
    {
        let now = Timestamp::now().duration_since_epoch().as_secs();
        let ghost pid = player_id;
        let r = self.add_player_at(player_id, addr, now);
        assert(old(self).spec_players().len() < old(self).spec_config().max_players ==> added_player(
            old(self).spec_players(),
            pid,
            addr,
            now,
        ) == self.spec_players());
        r
    }

    /// Removes the player `player_id`, if present.
    pub fn remove_player(&mut self, player_id: &str)
        ensures
            final(self).spec_room_id() == old(self).spec_room_id(),
            final(self).spec_config() == old(self).spec_config(),
            match player_index(old(self).spec_players(), player_id@) {
                Some(i) => final(self).spec_players() == old(self).spec_players().remove(i),
                None => final(self).spec_players() == old(self).spec_players(),
            },
    {
        match self.find(player_id) {
            Some(i) => {
                let _ = self.players.remove(i);
            },
            None => {},
        }
    }

    /// The number of players.
    pub fn player_count(&self) -> (n: usize)
        ensures
            n == self.spec_players().len(),
    {
        self.players.len()
    }
}

/// A found position is in range and holds the identifier.
proof fn lemma_player_index_range(players: Seq<PlayerConnection>, id: Seq<char>)
    ensures
        player_index(players, id) matches Some(i) ==> 0 <= i < players.len() && players[i].player_id@ == id,
    decreases players.len(),
{
    if players.len() > 0 && players.last().player_id@ != id {
        lemma_player_index_range(players.drop_last(), id);
    }
}

/// The rooms of a game server.
pub struct GameServer {
    rooms: Vec<GameRoom>,
    default_room_config: RoomConfig,
}

/// Whether some room is named `id`.
pub open spec fn has_room(rooms: Seq<GameRoom>, id: Seq<char>) -> bool {
    exists|i: int| 0 <= i < rooms.len() && #[trigger] rooms[i].spec_room_id()@ == id
}

impl GameServer {
    /// The rooms, in the order they were created.
    pub closed spec fn spec_rooms(&self) -> Seq<GameRoom> {
        self.rooms@
    }

    /// The configuration new rooms get.
    pub closed spec fn spec_default_config(&self) -> RoomConfig {
        self.default_room_config
    }

    /// A server with no rooms.
    pub fn new(default_config: RoomConfig) -> (s: GameServer)
        ensures
            s.spec_rooms().len() == 0,
            s.spec_default_config() == default_config,
    {
        GameServer { rooms: Vec::new(), default_room_config: default_config }
    }

    /// Creates an empty room `room_id` with the default configuration;
    /// `InvalidState` when the room exists.
    pub fn create_room(&mut self, room_id: String) -> (r: Result<(), GamesError>)
        ensures
            final(self).spec_default_config() == old(self).spec_default_config(),
            has_room(old(self).spec_rooms(), room_id@) ==> (r matches Err(GamesError::InvalidState))
                && final(self).spec_rooms() == old(self).spec_rooms(),
            !has_room(old(self).spec_rooms(), room_id@) ==> r is Ok && final(self).spec_rooms().len()
                == old(self).spec_rooms().len() + 1 && final(self).spec_rooms().drop_last() == old(self).spec_rooms()
                && final(self).spec_rooms().last().spec_room_id() == room_id && final(self).spec_rooms().last().spec_players().len() == 0
                && final(self).spec_rooms().last().spec_config() == old(self).spec_default_config(),
    {
        let mut i: usize = 0;
        while i < self.rooms.len()
            invariant
                i <= self.rooms@.len(),
                forall|j: int| 0 <= j < i ==> #[trigger] self.rooms@[j].room_id@ != room_id@,
            decreases self.rooms@.len() - i,
        {
            if str_eq(self.rooms[i].room_id.as_str(), room_id.as_str()) {
                assert(self.spec_rooms()[i as int].spec_room_id()@ == room_id@);
                return Err(GamesError::InvalidState);
            }
            i = i + 1;
        }
        let room = GameRoom::new(room_id, self.default_room_config);
        self.rooms.push(room);
        proof {
            assert(self.spec_rooms().drop_last() =~= old(self).spec_rooms());
        }
        Ok(())
    }

    /// The names of the rooms.
    pub fn list_rooms(&self) -> (names: Vec<String>)
        ensures
            names@.len() == self.spec_rooms().len(),
            forall|i: int| 0 <= i < names@.len() ==> #[trigger] names@[i] == self.spec_rooms()[i].spec_room_id(),
    {
        let mut names: Vec<String> = Vec::new();
        let mut i: usize = 0;
        while i < self.rooms.len()
            invariant
                i <= self.rooms@.len(),
                names@.len() == i,
                forall|j: int| 0 <= j < i ==> #[trigger] names@[j] == self.rooms@[j].room_id,
            decreases self.rooms@.len() - i,
        {
            names.push(self.rooms[i].room_id.clone());
            i = i + 1;
        }
        names
    }

    /// Rooms are not handed out of the server: the answer is always `None`,
    /// whatever rooms exist.
    pub fn get_room(&self, room_id: &str) -> (r: Option<GameRoom>)
        ensures
            r is None,
    {
        None
    }
}

} // verus!
