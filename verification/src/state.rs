//! The server's shared state: the room store and the connection registry.

use crate::types::{Room, RoomView};
use rand::distributions::Uniform;
use rand::Rng;
use vstd::hash_map::StringHashMap;
use vstd::prelude::*;

verus! {

/// Names the outbound channel of one live socket.
pub type ConnectionId = u64;

/// Number of letters in a room code.
pub const ROOM_CODE_LEN: usize = 4;

/// Whether `code` has the form of a room code: four letters from `A` to `Z`.
pub open spec fn is_room_code(code: Seq<char>) -> bool {
    &&& code.len() == ROOM_CODE_LEN
    &&& forall|i: int| 0 <= i < code.len() ==> 'A' <= #[trigger] code[i] <= 'Z'
}

/// Draws one byte from `low..=high` with `rand::thread_rng`,
/// `Uniform::new_inclusive` and `Rng::sample`. The distribution samples the
/// closed range, so the byte lies within the bounds; which byte comes is
/// left open. `Uniform::new_inclusive` panics when `low > high`, and
/// `thread_rng` when the system has no randomness to seed it with.
#[verifier::external_body]
fn uniform_byte(low: u8, high: u8) -> (byte: u8)
    requires
        low <= high,
    ensures
        low <= byte <= high,
{
    rand::thread_rng().sample(Uniform::new_inclusive(low, high))
}

/// `String::push` appends the given character to the end of the string.
pub assume_specification[ String::push ](text: &mut String, ch: char)
    ensures
        final(text)@ == old(text)@.push(ch),
;

/// A fresh room code of four letters drawn independently and uniformly from
/// `A` to `Z`. Codes already in use are not avoided.
pub fn generate_new_room_code() -> (room_code: String)
    ensures
        is_room_code(room_code@),
{
    let mut room_code = String::new();
    let mut drawn: usize = 0;
    while drawn < ROOM_CODE_LEN
        invariant
            drawn <= ROOM_CODE_LEN,
            room_code@.len() == drawn,
            forall|i: int| 0 <= i < room_code@.len() ==> 'A' <= #[trigger] room_code@[i] <= 'Z',
        decreases ROOM_CODE_LEN - drawn,
    {
        let letter: u8 = uniform_byte('A' as u8, 'Z' as u8);
        room_code.push(letter as char);
        drawn += 1;
    }
    room_code
}

/// What the server holds, as mathematical values.
#[verifier::ext_equal]
pub struct ServerView {
    /// The room store: room code to room.
    pub rooms: Map<Seq<char>, RoomView>,
    /// The connection registry: player name to connection.
    pub connections: Map<Seq<char>, ConnectionId>,
}

impl ServerView {
    /// No rooms and no connections.
    pub open spec fn empty() -> ServerView {
        ServerView { rooms: Map::empty(), connections: Map::empty() }
    }

    /// Every stored room has members, and its first member hosts it.
    pub open spec fn wf(self) -> bool {
        forall|room_code: Seq<char>| #[trigger]
            self.rooms.contains_key(room_code) ==> self.rooms[room_code].live()
    }

    /// In a well-formed store every room has members, and its host is one
    /// of them.
    pub proof fn lemma_stored_room_has_host(self, room_code: Seq<char>)
        requires
            self.wf(),
            self.rooms.contains_key(room_code),
        ensures
            !self.rooms[room_code].is_empty(),
            self.rooms[room_code].host_is_member(),
            self.rooms[room_code].players.contains(self.rooms[room_code].host),
    {
        self.rooms[room_code].lemma_first_member_hosts();
    }

    /// The state with `player_name` registered on `connection`, in place of
    /// any connection registered for the name before.
    pub open spec fn register(
        self,
        player_name: Seq<char>,
        connection: ConnectionId,
    ) -> ServerView {
        ServerView { connections: self.connections.insert(player_name, connection), ..self }
    }

    /// The state with no connection registered for `player_name`.
    pub open spec fn unregister(self, player_name: Seq<char>) -> ServerView {
        ServerView { connections: self.connections.remove(player_name), ..self }
    }

    /// The state with `player_name` unregistered if the name is registered
    /// on `connection`, and unchanged if not.
    pub open spec fn without_connection(
        self,
        player_name: Seq<char>,
        connection: ConnectionId,
    ) -> ServerView {
        if self.connections.contains_key(player_name) && self.connections[player_name]
            == connection {
            self.unregister(player_name)
        } else {
            self
        }
    }

    /// The state with `room` stored under `room_code`, in place of any room
    /// stored under the code before.
    pub open spec fn with_room(self, room_code: Seq<char>, room: RoomView) -> ServerView {
        ServerView { rooms: self.rooms.insert(room_code, room), ..self }
    }

    /// The state with no room stored under `room_code`.
    pub open spec fn without_room(self, room_code: Seq<char>) -> ServerView {
        ServerView { rooms: self.rooms.remove(room_code), ..self }
    }
}

/// The room store and the connection registry.
pub struct Server {
    rooms: StringHashMap<Room>,
    player_connections: StringHashMap<ConnectionId>,
}

impl View for Server {
    type V = ServerView;

    closed spec fn view(&self) -> ServerView {
        ServerView {
            rooms: self.rooms@.map_values(|room: Room| room@),
            connections: self.player_connections@,
        }
    }
}

impl Server {
    /// Every stored room has members, and its first member hosts it. This
    /// holds of every server value, at every point.
    #[verifier::type_invariant]
    pub closed spec fn inv(&self) -> bool {
        forall|room_code: Seq<char>| #[trigger]
            self.rooms@.contains_key(room_code) ==> self.rooms@[room_code]@.live()
    }

    /// The invariant of the server, in terms of what it holds.
    pub proof fn lemma_inv(&self)
        requires
            self.inv(),
        ensures
            self@.wf(),
    {
    }

    /// Moves the room store out, leaving an empty one. A table is changed
    /// outside the server and put back, so that the server meets its
    /// invariant at every point in between.
    fn take_rooms(&mut self) -> (rooms: StringHashMap<Room>)
        ensures
            rooms == old(self).rooms,
            final(self).rooms@ == Map::<Seq<char>, Room>::empty(),
            final(self).player_connections == old(self).player_connections,
    {
        let mut rooms = StringHashMap::new();
        std::mem::swap(&mut self.rooms, &mut rooms);
        rooms
    }

    /// Moves the connection registry out, leaving an empty one.
    fn take_connections(&mut self) -> (connections: StringHashMap<ConnectionId>)
        ensures
            connections == old(self).player_connections,
            final(self).player_connections@ == Map::<Seq<char>, ConnectionId>::empty(),
            final(self).rooms == old(self).rooms,
    {
        proof {
            use_type_invariant(&*self);
        }
        let mut connections = StringHashMap::new();
        std::mem::swap(&mut self.player_connections, &mut connections);
        connections
    }

    /// A server with no rooms and no connections.
    pub fn new() -> (server: Server)
        ensures
            server@ == ServerView::empty(),
    {
        let server = Server {
            rooms: StringHashMap::new(),
            player_connections: StringHashMap::new(),
        };
        assert(server@.rooms =~= Map::empty());
        server
    }

    /// Stores a fresh room for `player_name` under a newly drawn code and
    /// returns the code. A room already stored under that code is replaced.
    pub fn create_new_room(&mut self, player_name: &str) -> (room_code: String)
        ensures
            is_room_code(room_code@),
            final(self)@ == old(self)@.with_room(room_code@, RoomView::new(player_name@)),
            final(self)@.wf(),
    {
        let room_code = generate_new_room_code();
        self.open_room(room_code.as_str(), player_name);
        room_code
    }

    /// Stores a fresh room for `player_name` under `room_code`, in place of
    /// any room stored under the code before.
    pub fn open_room(&mut self, room_code: &str, player_name: &str)
        ensures
            final(self)@ == old(self)@.with_room(room_code@, RoomView::new(player_name@)),
            final(self)@.wf(),
    {
        self.store_room(room_code, Room::new(player_name));
    }

    /// Stores `room` under `room_code`, in place of any room stored under
    /// the code before.
    pub(crate) fn store_room(&mut self, room_code: &str, room: Room)
        requires
            room@.live(),
        ensures
            final(self)@ == old(self)@.with_room(room_code@, room@),
            final(self)@.wf(),
    {
        proof {
            use_type_invariant(&*self);
        }
        let mut rooms = self.take_rooms();
        rooms.insert(room_code.to_string(), room);
        self.rooms = rooms;
        assert(self@.rooms =~= old(self)@.rooms.insert(room_code@, room@));
    }

    /// Drops the room stored under `room_code`, if there is one.
    pub fn remove_room(&mut self, room_code: &str)
        ensures
            final(self)@ == old(self)@.without_room(room_code@),
            final(self)@.wf(),
    {
        proof {
            use_type_invariant(&*self);
        }
        let mut rooms = self.take_rooms();
        rooms.remove(room_code);
        self.rooms = rooms;
        assert(self@.rooms =~= old(self)@.rooms.remove(room_code@));
    }

    /// The room stored under `room_code`, if there is one.
    pub fn get_room(&self, room_code: &str) -> (room: Option<&Room>)
        ensures
            self@.wf(),
            match room {
                Some(room) => self@.rooms.contains_key(room_code@) && room@
                    == self@.rooms[room_code@],
                None => !self@.rooms.contains_key(room_code@),
            },
    {
        proof {
            use_type_invariant(self);
        }
        self.rooms.get(room_code)
    }

    /// Registers `connection` for `player_name`. A connection registered
    /// for the name before is replaced, whether or not it is still live.
    pub fn player_connected(&mut self, player_name: &str, connection: ConnectionId)
        ensures
            final(self)@ == old(self)@.register(player_name@, connection),
            final(self)@.wf(),
    {
        proof {
            use_type_invariant(&*self);
        }
        let mut connections = self.take_connections();
        connections.insert(player_name.to_string(), connection);
        self.player_connections = connections;
    }

    /// Drops the connection registered for `player_name`, if there is one.
    pub fn player_disconnected(&mut self, player_name: &str)
        ensures
            final(self)@ == old(self)@.unregister(player_name@),
            final(self)@.wf(),
    {
        proof {
            use_type_invariant(&*self);
        }
        let mut connections = self.take_connections();
        connections.remove(player_name);
        self.player_connections = connections;
    }

    /// Takes note that sending to `player_name` on `connection` failed: the
    /// registration is dropped if it still names that connection, and kept
    /// if the player has registered another since.
    pub fn delivery_failed(&mut self, player_name: &str, connection: ConnectionId)
        ensures
            final(self)@ == old(self)@.without_connection(player_name@, connection),
            final(self)@.wf(),
    {
        match self.get_player_connection(player_name) {
            Some(registered) => {
                if registered == connection {
                    self.player_disconnected(player_name);
                }
            },
            None => {},
        }
    }

    /// The connection registered for `player_name`, if there is one.
    pub fn get_player_connection(&self, player_name: &str) -> (connection: Option<ConnectionId>)
        ensures
            self@.wf(),
            match connection {
                Some(connection) => self@.connections.contains_key(player_name@) && connection
                    == self@.connections[player_name@],
                None => !self@.connections.contains_key(player_name@),
            },
    {
        proof {
            use_type_invariant(self);
        }
        match self.player_connections.get(player_name) {
            Some(connection) => Some(*connection),
            None => None,
        }
    }
}

impl Default for Server {
    fn default() -> (server: Server)
        ensures
            server@ == ServerView::empty(),
    {
        Server::new()
    }
}

} // verus!
