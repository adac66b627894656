//! Dispatch of client actions, and the state one socket keeps between them.

use crate::protocol::{ClientMessage, ClientMessageView, ServerMessageView};
use crate::room_manager::{
    after_change_role, after_create_game, after_join_game, after_leave_game, change_role,
    change_role_deliveries, create_game, get_room_info, join_game, join_game_deliveries,
    join_game_reply, kick, kick_notice, leave_game, leave_game_deliveries,
    lemma_change_role_keeps_rooms_live, lemma_create_game_keeps_rooms_live,
    lemma_join_game_keeps_rooms_live, lemma_leave_game_keeps_rooms_live, room_info_reply, Outcome,
    OutcomeView,
};
use crate::state::{is_room_code, ConnectionId, Server, ServerView};
use vstd::prelude::*;

verus! {

/// The state after the action `message` arrives on connection `sender`.
/// `issued` is the code under which a created room is stored; the other
/// actions do not depend on it.
pub open spec fn next_state(
    state: ServerView,
    sender: ConnectionId,
    message: ClientMessageView,
    issued: Seq<char>,
) -> ServerView {
    match message {
        ClientMessageView::CreateGame { player_name } => after_create_game(
            state,
            sender,
            player_name,
            issued,
        ),
        ClientMessageView::JoinGame { player_name, room_code } => after_join_game(
            state,
            sender,
            player_name,
            room_code,
        ),
        ClientMessageView::LeaveGame { player_name, room_code } => after_leave_game(
            state,
            player_name,
            room_code,
        ),
        ClientMessageView::Kick { room_code, player_name } => after_leave_game(
            state,
            player_name,
            room_code,
        ),
        ClientMessageView::GetRoomInfo { room_code } => state,
        ClientMessageView::ChangeRole { room_code, role, count } => after_change_role(
            state,
            room_code,
            role,
            count,
        ),
    }
}

/// What is sent when the action `message` arrives on connection `sender`.
/// `issued` is the code under which a created room is stored; the other
/// actions do not depend on it.
pub open spec fn response(
    state: ServerView,
    sender: ConnectionId,
    message: ClientMessageView,
    issued: Seq<char>,
) -> OutcomeView {
    match message {
        ClientMessageView::CreateGame { player_name } => OutcomeView {
            reply: Some(ServerMessageView::RoomCreated { room_code: issued }),
            deliveries: Seq::empty(),
        },
        ClientMessageView::JoinGame { player_name, room_code } => OutcomeView {
            reply: Some(join_game_reply(state, player_name, room_code)),
            deliveries: join_game_deliveries(state, sender, player_name, room_code),
        },
        ClientMessageView::LeaveGame { player_name, room_code } => OutcomeView {
            reply: None,
            deliveries: leave_game_deliveries(state, player_name, room_code),
        },
        ClientMessageView::Kick { room_code, player_name } => OutcomeView {
            reply: None,
            deliveries: kick_notice(state, player_name) + leave_game_deliveries(
                state,
                player_name,
                room_code,
            ),
        },
        ClientMessageView::GetRoomInfo { room_code } => OutcomeView {
            reply: Some(room_info_reply(state, room_code)),
            deliveries: Seq::empty(),
        },
        ClientMessageView::ChangeRole { room_code, role, count } => OutcomeView {
            reply: None,
            deliveries: change_role_deliveries(state, room_code, role, count),
        },
    }
}

/// The room code that an outcome announces as created; empty if it
/// announces none.
pub open spec fn issued_code(outcome: OutcomeView) -> Seq<char> {
    match outcome.reply {
        Some(ServerMessageView::RoomCreated { room_code }) => room_code,
        _ => Seq::empty(),
    }
}

/// Carries out one client action that arrived on connection `sender`, to
/// completion, and returns what is to be sent.
pub fn handle_client_message(
    client_message: ClientMessage,
    state: &mut Server,
    sender: ConnectionId,
) -> (outcome: Outcome)
    ensures
        final(state)@ == next_state(old(state)@, sender, client_message@, issued_code(outcome@)),
        outcome@ == response(old(state)@, sender, client_message@, issued_code(outcome@)),
        client_message@ is CreateGame ==> is_room_code(issued_code(outcome@)),
        final(state)@.wf(),
{
    match client_message {
        ClientMessage::CreateGame { player_name } => {
            let reply = create_game(state, sender, player_name.as_str());
            Outcome { reply: Some(reply), deliveries: Vec::new() }
        },
        ClientMessage::JoinGame { player_name, room_code } => join_game(
            state,
            sender,
            player_name.as_str(),
            room_code.as_str(),
        ),
        ClientMessage::LeaveGame { player_name, room_code } => {
            let deliveries = leave_game(state, player_name.as_str(), room_code.as_str());
            Outcome { reply: None, deliveries }
        },
        ClientMessage::Kick { player_name, room_code } => {
            let deliveries = kick(state, player_name.as_str(), room_code.as_str());
            Outcome { reply: None, deliveries }
        },
        ClientMessage::GetRoomInfo { room_code } => {
            let reply = get_room_info(state, room_code.as_str());
            Outcome { reply: Some(reply), deliveries: Vec::new() }
        },
        ClientMessage::ChangeRole { room_code, role, count } => {
            let deliveries = change_role(state, room_code.as_str(), role, count);
            Outcome { reply: None, deliveries }
        },
    }
}

/// The player name a socket is remembered under after `message` arrived on
/// it: creating or joining a game sets it, leaving or kicking clears it,
/// and the other actions keep it.
pub open spec fn remembered_name(current: Seq<char>, message: ClientMessageView) -> Seq<char> {
    match message {
        ClientMessageView::CreateGame { player_name } => player_name,
        ClientMessageView::JoinGame { player_name, room_code } => player_name,
        ClientMessageView::LeaveGame { player_name, room_code } => Seq::empty(),
        ClientMessageView::Kick { room_code, player_name } => Seq::empty(),
        ClientMessageView::GetRoomInfo { room_code } => current,
        ClientMessageView::ChangeRole { room_code, role, count } => current,
    }
}

/// The state after a socket closes that was last remembered under
/// `player_name`: the name is unregistered, unless it is empty.
pub open spec fn after_close(state: ServerView, player_name: Seq<char>) -> ServerView {
    if player_name.len() == 0 {
        state
    } else {
        state.unregister(player_name)
    }
}

/// What one socket keeps between messages: its connection, and the player
/// name last associated with it, empty if none.
#[derive(Debug)]
pub struct Session {
    connection: ConnectionId,
    player_name: String,
}

/// A session as mathematical values.
#[verifier::ext_equal]
pub struct SessionView {
    pub connection: ConnectionId,
    pub player_name: Seq<char>,
}

impl View for Session {
    type V = SessionView;

    closed spec fn view(&self) -> SessionView {
        SessionView { connection: self.connection, player_name: self.player_name@ }
    }
}

impl Session {
    /// The session of a socket that has just opened on `connection`.
    pub fn new(connection: ConnectionId) -> (session: Session)
        ensures
            session@ == (SessionView { connection, player_name: Seq::empty() }),
    {
        Session { connection, player_name: String::new() }
    }

    /// The connection that the socket's outgoing messages are sent on.
    pub fn connection(&self) -> (connection: ConnectionId)
        ensures
            connection == self@.connection,
    {
        self.connection
    }

    /// The player name last associated with the socket, empty if none.
    pub fn player_name(&self) -> (player_name: &str)
        ensures
            player_name@ == self@.player_name,
    {
        self.player_name.as_str()
    }

    /// Takes note of the player name that `message` associates with the
    /// socket.
    pub fn track(&mut self, message: &ClientMessage)
        ensures
            final(self)@ == (SessionView {
                connection: old(self)@.connection,
                player_name: remembered_name(old(self)@.player_name, message@),
            }),
    {
        match message {
            ClientMessage::CreateGame { player_name } => {
                self.player_name = player_name.clone();
            },
            ClientMessage::JoinGame { player_name, room_code } => {
                self.player_name = player_name.clone();
            },
            ClientMessage::LeaveGame { player_name, room_code } => {
                self.player_name = String::new();
            },
            ClientMessage::Kick { room_code, player_name } => {
                self.player_name = String::new();
            },
            ClientMessage::GetRoomInfo { room_code } => {},
            ClientMessage::ChangeRole { room_code, role, count } => {},
        }
    }

    /// Handles one decoded action from the socket: notes the player name it
    /// carries, then carries the action out.
    pub fn receive(&mut self, state: &mut Server, message: ClientMessage) -> (outcome: Outcome)
        ensures
            final(self)@ == (SessionView {
                connection: old(self)@.connection,
                player_name: remembered_name(old(self)@.player_name, message@),
            }),
            final(state)@ == next_state(
                old(state)@,
                old(self)@.connection,
                message@,
                issued_code(outcome@),
            ),
            outcome@ == response(
                old(state)@,
                old(self)@.connection,
                message@,
                issued_code(outcome@),
            ),
            message@ is CreateGame ==> is_room_code(issued_code(outcome@)),
            final(state)@.wf(),
    {
        self.track(&message);
        handle_client_message(message, state, self.connection)
    }

    /// Ends the session when the socket's inbound stream terminates: the
    /// player name last associated with the socket is unregistered.
    pub fn close(self, state: &mut Server)
        ensures
            final(state)@ == after_close(old(state)@, self@.player_name),
            final(state)@.wf(),
    {
        proof {
            use_type_invariant(&*state);
            state.lemma_inv();
        }
        if !self.player_name.as_str().is_empty() {
            state.player_disconnected(self.player_name.as_str());
        }
    }
}

/// What a socket's inbound stream yields, once a text frame is decoded.
#[derive(Debug, PartialEq, Eq)]
pub enum Inbound {
    /// A text frame that decodes to an action.
    Action(ClientMessage),
    /// A text frame that decodes to no action.
    Malformed,
    /// A frame that is not text.
    NotText,
    /// The stream is over: the peer closed it, or reading from it failed.
    Ended,
}

/// An inbound item as mathematical values.
pub enum InboundView {
    Action(ClientMessageView),
    Malformed,
    NotText,
    Ended,
}

impl View for Inbound {
    type V = InboundView;

    open spec fn view(&self) -> InboundView {
        match *self {
            Inbound::Action(message) => InboundView::Action(message@),
            Inbound::Malformed => InboundView::Malformed,
            Inbound::NotText => InboundView::NotText,
            Inbound::Ended => InboundView::Ended,
        }
    }
}

/// A session after one inbound item, with what is to be sent.
#[derive(Debug)]
pub struct Turn {
    /// The session to go on with; `None` once the stream is over.
    pub session: Option<Session>,
    /// What the item caused to be sent.
    pub outcome: Outcome,
}

impl Session {
    /// Handles one inbound item. An action is noted and carried out; a
    /// frame that is malformed or not text is dropped and the session goes
    /// on as it was; the end of the stream ends the session and unregisters
    /// the player name last associated with the socket.
    pub fn advance(self, state: &mut Server, inbound: Inbound) -> (turn: Turn)
        ensures
            final(state)@.wf(),
            match inbound@ {
                InboundView::Action(message) => {
                    &&& turn.session is Some
                    &&& turn.session->0@ == (SessionView {
                        connection: self@.connection,
                        player_name: remembered_name(self@.player_name, message),
                    })
                    &&& final(state)@ == next_state(
                        old(state)@,
                        self@.connection,
                        message,
                        issued_code(turn.outcome@),
                    )
                    &&& turn.outcome@ == response(
                        old(state)@,
                        self@.connection,
                        message,
                        issued_code(turn.outcome@),
                    )
                    &&& message is CreateGame ==> is_room_code(issued_code(turn.outcome@))
                },
                InboundView::Malformed | InboundView::NotText => {
                    &&& turn.session == Some(self)
                    &&& final(state)@ == old(state)@
                    &&& turn.outcome@ == OutcomeView::nothing()
                },
                InboundView::Ended => {
                    &&& turn.session is None
                    &&& final(state)@ == after_close(old(state)@, self@.player_name)
                    &&& turn.outcome@ == OutcomeView::nothing()
                },
            },
    {
        proof {
            use_type_invariant(&*state);
            state.lemma_inv();
        }
        match inbound {
            Inbound::Action(message) => {
                let mut session = self;
                let outcome = session.receive(state, message);
                Turn { session: Some(session), outcome }
            },
            Inbound::Malformed => Turn { session: Some(self), outcome: Outcome::nothing() },
            Inbound::NotText => Turn { session: Some(self), outcome: Outcome::nothing() },
            Inbound::Ended => {
                self.close(state);
                Turn { session: None, outcome: Outcome::nothing() }
            },
        }
    }
}

/// One client action as it reaches the server: the connection it arrived
/// on, the action, and the code drawn for it if it creates a room.
pub struct Request {
    pub sender: ConnectionId,
    pub message: ClientMessageView,
    pub issued: Seq<char>,
}

/// The state after the requests of `requests`, handled in order.
pub open spec fn run(state: ServerView, requests: Seq<Request>) -> ServerView
    decreases requests.len(),
{
    if requests.len() == 0 {
        state
    } else {
        let request = requests.last();
        next_state(
            run(state, requests.drop_last()),
            request.sender,
            request.message,
            request.issued,
        )
    }
}

/// No single action leaves a stored room without members or with a host
/// who is not its first member.
pub proof fn lemma_next_state_keeps_rooms_live(
    state: ServerView,
    sender: ConnectionId,
    message: ClientMessageView,
    issued: Seq<char>,
)
    requires
        state.wf(),
    ensures
        next_state(state, sender, message, issued).wf(),
{
    match message {
        ClientMessageView::CreateGame { player_name } => {
            lemma_create_game_keeps_rooms_live(state, sender, player_name, issued);
        },
        ClientMessageView::JoinGame { player_name, room_code } => {
            lemma_join_game_keeps_rooms_live(state, sender, player_name, room_code);
        },
        ClientMessageView::LeaveGame { player_name, room_code } => {
            lemma_leave_game_keeps_rooms_live(state, player_name, room_code);
        },
        ClientMessageView::Kick { room_code, player_name } => {
            lemma_leave_game_keeps_rooms_live(state, player_name, room_code);
        },
        ClientMessageView::GetRoomInfo { room_code } => {},
        ClientMessageView::ChangeRole { room_code, role, count } => {
            lemma_change_role_keeps_rooms_live(state, room_code, role, count);
        },
    }
}

/// Whatever actions arrive, in whatever order and with whatever codes
/// drawn, every room in the store has members and its host is one of them.
pub proof fn lemma_host_is_always_member(requests: Seq<Request>, room_code: Seq<char>)
    requires
        run(ServerView::empty(), requests).rooms.contains_key(room_code),
    ensures
        !run(ServerView::empty(), requests).rooms[room_code].is_empty(),
        run(ServerView::empty(), requests).rooms[room_code].host_is_member(),
{
    lemma_run_keeps_rooms_live(ServerView::empty(), requests);
    run(ServerView::empty(), requests).lemma_stored_room_has_host(room_code);
}

/// A sequence of actions on a store whose rooms all have members and their
/// first member as host leaves such a store.
pub proof fn lemma_run_keeps_rooms_live(state: ServerView, requests: Seq<Request>)
    requires
        state.wf(),
    ensures
        run(state, requests).wf(),
    decreases requests.len(),
{
    if requests.len() > 0 {
        lemma_run_keeps_rooms_live(state, requests.drop_last());
        let request = requests.last();
        lemma_next_state_keeps_rooms_live(
            run(state, requests.drop_last()),
            request.sender,
            request.message,
            request.issued,
        );
    }
}

} // verus!
