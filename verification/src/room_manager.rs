//! The actions a client can request: what each does to the server's state
//! and what it sends.

use crate::broadcast::{delivery_views, fan_out, notify_members, Delivery, DeliveryView};
use crate::protocol::{ServerMessage, ServerMessageView};
use crate::state::{is_room_code, ConnectionId, Server, ServerView};
use crate::types::{Role, RoomView};
use vstd::prelude::*;

verus! {

/// What an action sends: a reply on the requester's own connection, then
/// deliveries to the connections registered for players, in order.
#[derive(Debug, PartialEq, Eq)]
pub struct Outcome {
    /// The answer to the requester, if the action has one.
    pub reply: Option<ServerMessage>,
    /// The messages for registered players, in sending order.
    pub deliveries: Vec<Delivery>,
}

/// An outcome as mathematical values.
#[verifier::ext_equal]
pub struct OutcomeView {
    pub reply: Option<ServerMessageView>,
    pub deliveries: Seq<DeliveryView>,
}

impl OutcomeView {
    /// No reply and no deliveries.
    pub open spec fn nothing() -> OutcomeView {
        OutcomeView { reply: None, deliveries: Seq::empty() }
    }
}

impl Outcome {
    /// An outcome that sends nothing.
    pub fn nothing() -> (outcome: Outcome)
        ensures
            outcome@ == OutcomeView::nothing(),
    {
        Outcome { reply: None, deliveries: Vec::new() }
    }
}

impl View for Outcome {
    type V = OutcomeView;

    open spec fn view(&self) -> OutcomeView {
        OutcomeView {
            reply: match self.reply {
                Some(message) => Some(message@),
                None => None,
            },
            deliveries: delivery_views(self.deliveries@),
        }
    }
}

/// The state after `player_name` creates a game on connection `sender` and
/// the room is stored under `room_code`.
pub open spec fn after_create_game(
    state: ServerView,
    sender: ConnectionId,
    player_name: Seq<char>,
    room_code: Seq<char>,
) -> ServerView {
    state.register(player_name, sender).with_room(room_code, RoomView::new(player_name))
}

/// Registers `sender` for `player_name`, opens a room with the player as
/// sole member and host under a newly drawn code, and answers with the code.
pub fn create_game(state: &mut Server, sender: ConnectionId, player_name: &str) -> (reply:
    ServerMessage)
    ensures
        reply@ is RoomCreated,
        is_room_code(reply@->RoomCreated_room_code),
        final(state)@ == after_create_game(
            old(state)@,
            sender,
            player_name@,
            reply@->RoomCreated_room_code,
        ),
        final(state)@.wf(),
{
    state.player_connected(player_name, sender);
    let room_code = state.create_new_room(player_name);
    ServerMessage::RoomCreated { room_code }
}

/// Creating a game stores the creator's room with the creator as sole
/// member and host, registers the creator's connection, and keeps every
/// stored room with members and a host among them.
pub proof fn lemma_create_game_keeps_rooms_live(
    state: ServerView,
    sender: ConnectionId,
    player_name: Seq<char>,
    room_code: Seq<char>,
)
    requires
        state.wf(),
    ensures
        ({
            let after = after_create_game(state, sender, player_name, room_code);
            &&& after.wf()
            &&& after.rooms[room_code] == RoomView::new(player_name)
            &&& after.connections[player_name] == sender
        }),
{
}

/// Whether a request of `player_name` to join `room_code` is granted: the
/// room exists and has no member of that name.
pub open spec fn admits_join(
    state: ServerView,
    player_name: Seq<char>,
    room_code: Seq<char>,
) -> bool {
    state.rooms.contains_key(room_code) && !state.rooms[room_code].player_exists(player_name)
}

/// The state after `player_name` asks on connection `sender` to join
/// `room_code`.
pub open spec fn after_join_game(
    state: ServerView,
    sender: ConnectionId,
    player_name: Seq<char>,
    room_code: Seq<char>,
) -> ServerView {
    if admits_join(state, player_name, room_code) {
        state.register(player_name, sender).with_room(
            room_code,
            state.rooms[room_code].add_player(player_name),
        )
    } else {
        state
    }
}

/// The answer to a request of `player_name` to join `room_code`.
pub open spec fn join_game_reply(
    state: ServerView,
    player_name: Seq<char>,
    room_code: Seq<char>,
) -> ServerMessageView {
    if !state.rooms.contains_key(room_code) {
        ServerMessageView::RoomDoesNotExist
    } else if state.rooms[room_code].player_exists(player_name) {
        ServerMessageView::PlayerExists
    } else {
        ServerMessageView::RoomExists
    }
}

/// The room updates sent when `player_name` asks on connection `sender` to
/// join `room_code`: none unless the join is granted, else the enlarged room
/// to every member but the joiner.
pub open spec fn join_game_deliveries(
    state: ServerView,
    sender: ConnectionId,
    player_name: Seq<char>,
    room_code: Seq<char>,
) -> Seq<DeliveryView> {
    if admits_join(state, player_name, room_code) {
        let joined = state.rooms[room_code].add_player(player_name);
        fan_out(
            state.connections.insert(player_name, sender),
            joined.players,
            Some(player_name),
            joined,
        )
    } else {
        Seq::empty()
    }
}

/// Adds `player_name` to the room `room_code` and registers `sender` for
/// the player, unless the room is missing or already has a member of that
/// name; the membership test and the append happen in one step. The joiner
/// is answered, and on success the other members get the enlarged room.
pub fn join_game(state: &mut Server, sender: ConnectionId, player_name: &str, room_code: &str) -> (
    outcome: Outcome)
    ensures
        final(state)@ == after_join_game(old(state)@, sender, player_name@, room_code@),
        outcome@.reply == Some(join_game_reply(old(state)@, player_name@, room_code@)),
        outcome@.deliveries == join_game_deliveries(
            old(state)@,
            sender,
            player_name@,
            room_code@,
        ),
        final(state)@.wf(),
{
    let mut room = match state.get_room(room_code) {
        None => {
            return Outcome { reply: Some(ServerMessage::RoomDoesNotExist), deliveries: Vec::new() };
        },
        Some(room) => {
            if room.player_exists(player_name) {
                return Outcome { reply: Some(ServerMessage::PlayerExists), deliveries: Vec::new() };
            }
            room.clone()
        },
    };
    state.player_connected(player_name, sender);
    room.add_player(player_name);
    state.store_room(room_code, room.clone());
    let deliveries = notify_members(state, &room, Some(player_name));
    Outcome { reply: Some(ServerMessage::RoomExists), deliveries }
}

/// A request to join a room that does not exist is answered with
/// `RoomDoesNotExist`, changes nothing and sends nothing else.
pub proof fn lemma_join_missing_room(
    state: ServerView,
    sender: ConnectionId,
    player_name: Seq<char>,
    room_code: Seq<char>,
)
    requires
        !state.rooms.contains_key(room_code),
    ensures
        join_game_reply(state, player_name, room_code) == ServerMessageView::RoomDoesNotExist,
        after_join_game(state, sender, player_name, room_code) == state,
        join_game_deliveries(state, sender, player_name, room_code) == Seq::<DeliveryView>::empty(),
{
}

/// A request to join a room under a name that one of its members bears is
/// answered with `PlayerExists`, changes nothing and sends nothing else.
pub proof fn lemma_join_existing_player(
    state: ServerView,
    sender: ConnectionId,
    player_name: Seq<char>,
    room_code: Seq<char>,
)
    requires
        state.rooms.contains_key(room_code),
        state.rooms[room_code].players.contains(player_name),
    ensures
        join_game_reply(state, player_name, room_code) == ServerMessageView::PlayerExists,
        after_join_game(state, sender, player_name, room_code) == state,
        join_game_deliveries(state, sender, player_name, room_code) == Seq::<DeliveryView>::empty(),
{
}

/// A granted join appends the joiner to the room, registers the joiner's
/// connection, leaves every other room and registration as it was, and
/// keeps every stored room with members and a host among them.
pub proof fn lemma_join_granted(
    state: ServerView,
    sender: ConnectionId,
    player_name: Seq<char>,
    room_code: Seq<char>,
)
    requires
        state.wf(),
        admits_join(state, player_name, room_code),
    ensures
        join_game_reply(state, player_name, room_code) == ServerMessageView::RoomExists,
        ({
            let after = after_join_game(state, sender, player_name, room_code);
            &&& after.wf()
            &&& after.rooms[room_code].players == state.rooms[room_code].players.push(player_name)
            &&& after.rooms[room_code].host == state.rooms[room_code].host
            &&& after.rooms[room_code].roles == state.rooms[room_code].roles
            &&& after.rooms.remove(room_code) == state.rooms.remove(room_code)
            &&& after.connections[player_name] == sender
            &&& after.connections.remove(player_name) == state.connections.remove(player_name)
        }),
{
    let after = after_join_game(state, sender, player_name, room_code);
    assert(after.rooms.remove(room_code) =~= state.rooms.remove(room_code));
    assert(after.connections.remove(player_name) =~= state.connections.remove(player_name));
}

/// Any request to join keeps every stored room with members and a host
/// among them.
pub proof fn lemma_join_game_keeps_rooms_live(
    state: ServerView,
    sender: ConnectionId,
    player_name: Seq<char>,
    room_code: Seq<char>,
)
    requires
        state.wf(),
    ensures
        after_join_game(state, sender, player_name, room_code).wf(),
{
}

/// The state after `player_name` leaves `room_code`: where the room exists,
/// the player's first entry is gone from it, the player's connection is
/// unregistered, and a room left without members is dropped from the store.
pub open spec fn after_leave_game(
    state: ServerView,
    player_name: Seq<char>,
    room_code: Seq<char>,
) -> ServerView {
    if state.rooms.contains_key(room_code) {
        let room = state.rooms[room_code].remove_player(player_name);
        if room.is_empty() {
            state.unregister(player_name).without_room(room_code)
        } else {
            state.unregister(player_name).with_room(room_code, room)
        }
    } else {
        state
    }
}

/// The room updates sent when `player_name` leaves `room_code`: the
/// shrunken room to every remaining member but the leaver; none where the
/// room is missing or left without members.
pub open spec fn leave_game_deliveries(
    state: ServerView,
    player_name: Seq<char>,
    room_code: Seq<char>,
) -> Seq<DeliveryView> {
    if state.rooms.contains_key(room_code) {
        let room = state.rooms[room_code].remove_player(player_name);
        if room.is_empty() {
            Seq::empty()
        } else {
            fan_out(state.connections.remove(player_name), room.players, Some(player_name), room)
        }
    } else {
        Seq::empty()
    }
}

/// Takes `player_name` out of the room `room_code` and unregisters the
/// player's connection. A room left without members is dropped at once;
/// otherwise the remaining members get the shrunken room. Nothing happens
/// where the room is missing.
pub fn leave_game(state: &mut Server, player_name: &str, room_code: &str) -> (deliveries: Vec<
    Delivery,
>)
    ensures
        final(state)@ == after_leave_game(old(state)@, player_name@, room_code@),
        delivery_views(deliveries@) == leave_game_deliveries(
            old(state)@,
            player_name@,
            room_code@,
        ),
        final(state)@.wf(),
{
    let mut room = match state.get_room(room_code) {
        None => {
            return Vec::new();
        },
        Some(room) => room.clone(),
    };
    proof {
        room@.lemma_remove_player_live(player_name@);
    }
    room.remove_player(player_name);
    state.player_disconnected(player_name);
    if room.is_empty() {
        state.remove_room(room_code);
        Vec::new()
    } else {
        state.store_room(room_code, room.clone());
        notify_members(state, &room, Some(player_name))
    }
}

/// A room is gone from the store right after the removal that takes its
/// last member; a room that keeps members stays, with its first member as
/// host. Either way the leaver's connection is unregistered.
pub proof fn lemma_leave_game_drops_emptied_room(
    state: ServerView,
    player_name: Seq<char>,
    room_code: Seq<char>,
)
    requires
        state.wf(),
        state.rooms.contains_key(room_code),
    ensures
        ({
            let room = state.rooms[room_code].remove_player(player_name);
            let after = after_leave_game(state, player_name, room_code);
            &&& room.is_empty() <==> state.rooms[room_code].players == seq![player_name]
            &&& room.is_empty() ==> !after.rooms.contains_key(room_code)
            &&& !room.is_empty() ==> after.rooms.contains_key(room_code) && after.rooms[room_code]
                == room && room.live()
            &&& !after.connections.contains_key(player_name)
        }),
{
    state.rooms[room_code].lemma_remove_player_live(player_name);
}

/// Leaving a room that does not exist changes nothing and sends nothing.
pub proof fn lemma_leave_missing_room(
    state: ServerView,
    player_name: Seq<char>,
    room_code: Seq<char>,
)
    requires
        !state.rooms.contains_key(room_code),
    ensures
        after_leave_game(state, player_name, room_code) == state,
        leave_game_deliveries(state, player_name, room_code) == Seq::<DeliveryView>::empty(),
{
}

/// Leaving keeps every stored room with members and a host among them.
pub proof fn lemma_leave_game_keeps_rooms_live(
    state: ServerView,
    player_name: Seq<char>,
    room_code: Seq<char>,
)
    requires
        state.wf(),
    ensures
        after_leave_game(state, player_name, room_code).wf(),
{
    if state.rooms.contains_key(room_code) {
        state.rooms[room_code].lemma_remove_player_live(player_name);
    }
}

/// The notice sent to a kicked player: `Kicked` on the connection
/// registered for the name, if there is one.
pub open spec fn kick_notice(state: ServerView, player_name: Seq<char>) -> Seq<DeliveryView> {
    if state.connections.contains_key(player_name) {
        seq![
            DeliveryView {
                player: player_name,
                connection: state.connections[player_name],
                message: ServerMessageView::Kicked,
            },
        ]
    } else {
        Seq::empty()
    }
}

/// Tells `player_name` of the kick on the connection registered for the
/// name, whether or not the room exists, then does what `leave_game` does.
pub fn kick(state: &mut Server, player_name: &str, room_code: &str) -> (deliveries: Vec<Delivery>)
    ensures
        final(state)@ == after_leave_game(old(state)@, player_name@, room_code@),
        delivery_views(deliveries@) == kick_notice(old(state)@, player_name@)
            + leave_game_deliveries(old(state)@, player_name@, room_code@),
        final(state)@.wf(),
{
    let mut deliveries: Vec<Delivery> = Vec::new();
    if let Some(connection) = state.get_player_connection(player_name) {
        deliveries.push(
            Delivery {
                player: player_name.to_string(),
                connection,
                message: ServerMessage::Kicked,
            },
        );
    }
    let ghost notice = deliveries@;
    let mut updates = leave_game(state, player_name, room_code);
    let ghost sent = updates@;
    deliveries.append(&mut updates);
    assert(delivery_views(deliveries@) =~= delivery_views(notice) + delivery_views(sent));
    deliveries
}

/// The answer to a request for the room `room_code`.
pub open spec fn room_info_reply(state: ServerView, room_code: Seq<char>) -> ServerMessageView {
    if state.rooms.contains_key(room_code) {
        ServerMessageView::RoomInfo(state.rooms[room_code])
    } else {
        ServerMessageView::RoomDoesNotExist
    }
}

/// The room `room_code` as it stands, or `RoomDoesNotExist`.
pub fn get_room_info(state: &Server, room_code: &str) -> (reply: ServerMessage)
    ensures
        reply@ == room_info_reply(state@, room_code@),
        state@.wf(),
{
    match state.get_room(room_code) {
        Some(room) => ServerMessage::RoomInfo(room.clone()),
        None => ServerMessage::RoomDoesNotExist,
    }
}

/// The state after the count of `role` in `room_code` is set to `count`.
pub open spec fn after_change_role(
    state: ServerView,
    room_code: Seq<char>,
    role: Role,
    count: i64,
) -> ServerView {
    if state.rooms.contains_key(room_code) {
        state.with_room(room_code, state.rooms[room_code].change_role(role, count))
    } else {
        state
    }
}

/// The room updates sent when the count of `role` in `room_code` is set to
/// `count`: the reconfigured room to every member; none where the room is
/// missing.
pub open spec fn change_role_deliveries(
    state: ServerView,
    room_code: Seq<char>,
    role: Role,
    count: i64,
) -> Seq<DeliveryView> {
    if state.rooms.contains_key(room_code) {
        let room = state.rooms[room_code].change_role(role, count);
        fan_out(state.connections, room.players, None, room)
    } else {
        Seq::empty()
    }
}

/// Overwrites the target headcount of `role` in the room `room_code` and
/// sends the reconfigured room to every member. Nothing happens where the
/// room is missing.
pub fn change_role(state: &mut Server, room_code: &str, role: Role, count: i64) -> (deliveries:
    Vec<Delivery>)
    ensures
        final(state)@ == after_change_role(old(state)@, room_code@, role, count),
        delivery_views(deliveries@) == change_role_deliveries(
            old(state)@,
            room_code@,
            role,
            count,
        ),
        final(state)@.wf(),
{
    let mut room = match state.get_room(room_code) {
        None => {
            return Vec::new();
        },
        Some(room) => room.clone(),
    };
    room.change_role(role, count);
    state.store_room(room_code, room.clone());
    notify_members(state, &room, None)
}

/// Setting a role's count twice to the same value leaves the server as
/// setting it once does.
pub proof fn lemma_change_role_idempotent(
    state: ServerView,
    room_code: Seq<char>,
    role: Role,
    count: i64,
)
    ensures
        after_change_role(after_change_role(state, room_code, role, count), room_code, role, count)
            == after_change_role(state, room_code, role, count),
        change_role_deliveries(
            after_change_role(state, room_code, role, count),
            room_code,
            role,
            count,
        ) == change_role_deliveries(state, room_code, role, count),
{
    if state.rooms.contains_key(room_code) {
        let room = state.rooms[room_code];
        room.lemma_change_role_idempotent(role, count);
        let once = after_change_role(state, room_code, role, count);
        let twice = after_change_role(once, room_code, role, count);
        assert(twice.rooms =~= once.rooms);
    }
}

/// Setting a role's count changes neither the membership nor the host of
/// any room, and so keeps every stored room with members and a host among
/// them.
pub proof fn lemma_change_role_keeps_rooms_live(
    state: ServerView,
    room_code: Seq<char>,
    role: Role,
    count: i64,
)
    requires
        state.wf(),
    ensures
        after_change_role(state, room_code, role, count).wf(),
        after_change_role(state, room_code, role, count).connections == state.connections,
{
}

} // verus!
