//! Messages exchanged with clients.

use crate::types::{Role, Room, RoomView};
use vstd::prelude::*;

verus! {

/// An action requested by a client.
#[derive(Debug, PartialEq, Eq)]
pub enum ClientMessage {
    CreateGame { player_name: String },
    JoinGame { player_name: String, room_code: String },
    LeaveGame { player_name: String, room_code: String },
    GetRoomInfo { room_code: String },
    Kick { room_code: String, player_name: String },
    ChangeRole { room_code: String, role: Role, count: i64 },
}

/// A client action as mathematical values.
#[verifier::ext_equal]
pub enum ClientMessageView {
    CreateGame { player_name: Seq<char> },
    JoinGame { player_name: Seq<char>, room_code: Seq<char> },
    LeaveGame { player_name: Seq<char>, room_code: Seq<char> },
    GetRoomInfo { room_code: Seq<char> },
    Kick { room_code: Seq<char>, player_name: Seq<char> },
    ChangeRole { room_code: Seq<char>, role: Role, count: i64 },
}

impl View for ClientMessage {
    type V = ClientMessageView;

    open spec fn view(&self) -> ClientMessageView {
        match *self {
            ClientMessage::CreateGame { player_name } => ClientMessageView::CreateGame {
                player_name: player_name@,
            },
            ClientMessage::JoinGame { player_name, room_code } => ClientMessageView::JoinGame {
                player_name: player_name@,
                room_code: room_code@,
            },
            ClientMessage::LeaveGame { player_name, room_code } => ClientMessageView::LeaveGame {
                player_name: player_name@,
                room_code: room_code@,
            },
            ClientMessage::GetRoomInfo { room_code } => ClientMessageView::GetRoomInfo {
                room_code: room_code@,
            },
            ClientMessage::Kick { room_code, player_name } => ClientMessageView::Kick {
                room_code: room_code@,
                player_name: player_name@,
            },
            ClientMessage::ChangeRole { room_code, role, count } => ClientMessageView::ChangeRole {
                room_code: room_code@,
                role,
                count,
            },
        }
    }
}

/// A message sent to a client.
#[derive(Debug, PartialEq, Eq)]
pub enum ServerMessage {
    RoomCreated { room_code: String },
    PlayerJoined { player_name: String },
    RoomDoesNotExist,
    PlayerExists,
    RoomExists,
    Kicked,
    RoomInfo(Room),
}

/// A server message as mathematical values.
#[verifier::ext_equal]
pub enum ServerMessageView {
    RoomCreated { room_code: Seq<char> },
    PlayerJoined { player_name: Seq<char> },
    RoomDoesNotExist,
    PlayerExists,
    RoomExists,
    Kicked,
    RoomInfo(RoomView),
}

impl View for ServerMessage {
    type V = ServerMessageView;

    open spec fn view(&self) -> ServerMessageView {
        match *self {
            ServerMessage::RoomCreated { room_code } => ServerMessageView::RoomCreated {
                room_code: room_code@,
            },
            ServerMessage::PlayerJoined { player_name } => ServerMessageView::PlayerJoined {
                player_name: player_name@,
            },
            ServerMessage::RoomDoesNotExist => ServerMessageView::RoomDoesNotExist,
            ServerMessage::PlayerExists => ServerMessageView::PlayerExists,
            ServerMessage::RoomExists => ServerMessageView::RoomExists,
            ServerMessage::Kicked => ServerMessageView::Kicked,
            ServerMessage::RoomInfo(room) => ServerMessageView::RoomInfo(room@),
        }
    }
}

} // verus!
