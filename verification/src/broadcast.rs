//! The fan-out of a room update to the members' connections.

use crate::protocol::{ServerMessage, ServerMessageView};
use crate::state::{ConnectionId, Server};
use crate::types::{Room, RoomView};
use vstd::prelude::*;

verus! {

/// A message on its way to the connection registered for a player.
#[derive(Debug, PartialEq, Eq)]
pub struct Delivery {
    /// The name the connection is registered under.
    pub player: String,
    /// The connection to send on.
    pub connection: ConnectionId,
    /// What to send.
    pub message: ServerMessage,
}

/// A delivery as mathematical values.
#[verifier::ext_equal]
pub struct DeliveryView {
    pub player: Seq<char>,
    pub connection: ConnectionId,
    pub message: ServerMessageView,
}

impl View for Delivery {
    type V = DeliveryView;

    open spec fn view(&self) -> DeliveryView {
        DeliveryView { player: self.player@, connection: self.connection, message: self.message@ }
    }
}

/// The views of `deliveries`, in order.
pub open spec fn delivery_views(deliveries: Seq<Delivery>) -> Seq<DeliveryView> {
    Seq::new(deliveries.len(), |i: int| deliveries[i]@)
}

/// Whether a room update goes to `member`: the member is not the excluded
/// one and has a registered connection.
pub open spec fn reaches(
    connections: Map<Seq<char>, ConnectionId>,
    except: Option<Seq<char>>,
    member: Seq<char>,
) -> bool {
    except != Some(member) && connections.contains_key(member)
}

/// The delivery that carries `room` to `member`.
pub open spec fn room_update(
    connections: Map<Seq<char>, ConnectionId>,
    member: Seq<char>,
    room: RoomView,
) -> DeliveryView {
    DeliveryView {
        player: member,
        connection: connections[member],
        message: ServerMessageView::RoomInfo(room),
    }
}

/// The deliveries that carry `room` to its members, in join order, leaving
/// out the excluded member and the members without a connection.
pub open spec fn fan_out(
    connections: Map<Seq<char>, ConnectionId>,
    members: Seq<Seq<char>>,
    except: Option<Seq<char>>,
    room: RoomView,
) -> Seq<DeliveryView>
    decreases members.len(),
{
    if members.len() == 0 {
        Seq::empty()
    } else {
        let earlier = fan_out(connections, members.drop_last(), except, room);
        let member = members.last();
        if reaches(connections, except, member) {
            earlier.push(room_update(connections, member, room))
        } else {
            earlier
        }
    }
}

/// The fan-out serves every member that is not excluded and has a
/// registered connection, and no one else: each delivery carries the room
/// to such a member on the connection registered for it.
pub proof fn lemma_fan_out_serves_members(
    connections: Map<Seq<char>, ConnectionId>,
    members: Seq<Seq<char>>,
    except: Option<Seq<char>>,
    room: RoomView,
)
    ensures
        forall|i: int|
            0 <= i < members.len() && reaches(connections, except, #[trigger] members[i])
                ==> fan_out(connections, members, except, room).contains(
                room_update(connections, members[i], room),
            ),
        forall|k: int|
            0 <= k < fan_out(connections, members, except, room).len() ==> {
                let delivery = #[trigger] fan_out(connections, members, except, room)[k];
                &&& members.contains(delivery.player)
                &&& reaches(connections, except, delivery.player)
                &&& delivery == room_update(connections, delivery.player, room)
            },
    decreases members.len(),
{
    let sent = fan_out(connections, members, except, room);
    if members.len() > 0 {
        let earlier = fan_out(connections, members.drop_last(), except, room);
        let member = members.last();
        lemma_fan_out_serves_members(connections, members.drop_last(), except, room);
        assert forall|i: int|
            0 <= i < members.len() && reaches(
                connections,
                except,
                #[trigger] members[i],
            ) implies sent.contains(room_update(connections, members[i], room)) by {
            if i < members.len() - 1 {
                assert(members.drop_last()[i] == members[i]);
                let k = choose|k: int|
                    0 <= k < earlier.len() && earlier[k] == room_update(
                        connections,
                        members[i],
                        room,
                    );
                assert(sent[k] == earlier[k]);
            } else {
                assert(sent[sent.len() - 1] == room_update(connections, members[i], room));
            }
        }
        assert forall|k: int| 0 <= k < sent.len() implies ({
            let delivery = #[trigger] sent[k];
            &&& members.contains(delivery.player)
            &&& reaches(connections, except, delivery.player)
            &&& delivery == room_update(connections, delivery.player, room)
        }) by {
            if k < earlier.len() {
                assert(sent[k] == earlier[k]);
                let i = choose|i: int|
                    0 <= i < members.drop_last().len() && members.drop_last()[i]
                        == earlier[k].player;
                assert(members[i] == earlier[k].player);
            } else {
                assert(members[members.len() - 1] == member);
            }
        }
    }
}

/// The fan-out follows join order: the players it addresses are the members
/// that are not excluded and have a registered connection, each as often and
/// in the order in which it stands among the members.
pub proof fn lemma_fan_out_recipients(
    connections: Map<Seq<char>, ConnectionId>,
    members: Seq<Seq<char>>,
    except: Option<Seq<char>>,
    room: RoomView,
)
    ensures
        fan_out(connections, members, except, room).map_values(
            |delivery: DeliveryView| delivery.player,
        ) == members.filter(|member: Seq<char>| reaches(connections, except, member)),
    decreases members.len(),
{
    reveal(Seq::filter);
    let served = |member: Seq<char>| reaches(connections, except, member);
    let name = |delivery: DeliveryView| delivery.player;
    if members.len() > 0 {
        lemma_fan_out_recipients(connections, members.drop_last(), except, room);
        let earlier = fan_out(connections, members.drop_last(), except, room);
        if served(members.last()) {
            assert(earlier.push(room_update(connections, members.last(), room)).map_values(name)
                =~= earlier.map_values(name).push(members.last()));
        }
    } else {
        assert(fan_out(connections, members, except, room).map_values(name) =~= members.filter(
            served,
        ));
    }
}

/// A member without a registered connection is passed over without
/// consequence for the others: the fan-out is the same as if the member
/// were not in the room.
pub proof fn lemma_fan_out_skips_unregistered(
    connections: Map<Seq<char>, ConnectionId>,
    members: Seq<Seq<char>>,
    except: Option<Seq<char>>,
    room: RoomView,
    absent: Seq<char>,
)
    requires
        !connections.contains_key(absent),
    ensures
        fan_out(connections, members, except, room) == fan_out(
            connections,
            members.filter(|member: Seq<char>| member != absent),
            except,
            room,
        ),
    decreases members.len(),
{
    reveal(Seq::filter);
    let others = |member: Seq<char>| member != absent;
    if members.len() > 0 {
        lemma_fan_out_skips_unregistered(connections, members.drop_last(), except, room, absent);
        if others(members.last()) {
            let kept = members.drop_last().filter(others).push(members.last());
            assert(kept.drop_last() =~= members.drop_last().filter(others));
        }
    }
}

/// The excluded name as a mathematical value.
pub open spec fn excluded(except: Option<&str>) -> Option<Seq<char>> {
    match except {
        Some(name) => Some(name@),
        None => None,
    }
}

/// The exclusion that a name stands for: the empty name excludes no one.
pub open spec fn exclusion(except: Seq<char>) -> Option<Seq<char>> {
    if except.len() == 0 {
        None
    } else {
        Some(except)
    }
}

/// Addresses `room` to each of its members but the excluded one. A member
/// without a registered connection is passed over; the others are still
/// served.
pub fn notify_members(state: &Server, room: &Room, except: Option<&str>) -> (deliveries: Vec<
    Delivery,
>)
    ensures
        delivery_views(deliveries@) == fan_out(
            state@.connections,
            room@.players,
            excluded(except),
            room@,
        ),
{
    let excluded_name: Option<String> = match except {
        Some(name) => Some(name.to_string()),
        None => None,
    };
    let members = room.players();
    let mut deliveries: Vec<Delivery> = Vec::new();
    let mut i: usize = 0;
    while i < members.len()
        invariant
            i <= members.len(),
            members@.len() == room@.players.len(),
            forall|j: int| 0 <= j < members@.len() ==> members@[j]@ == room@.players[j],
            match excluded_name {
                Some(name) => excluded(except) == Some(name@),
                None => excluded(except) is None,
            },
            delivery_views(deliveries@) == fan_out(
                state@.connections,
                room@.players.take(i as int),
                excluded(except),
                room@,
            ),
        decreases members.len() - i,
    {
        let member = &members[i];
        let is_excluded = match &excluded_name {
            Some(name) => *member == *name,
            None => false,
        };
        proof {
            assert(room@.players.take(i + 1).drop_last() =~= room@.players.take(i as int));
            assert(room@.players.take(i + 1).last() == member@);
        }
        if !is_excluded {
            if let Some(connection) = state.get_player_connection(member.as_str()) {
                let ghost before = delivery_views(deliveries@);
                let delivery = Delivery {
                    player: member.clone(),
                    connection,
                    message: ServerMessage::RoomInfo(room.clone()),
                };
                deliveries.push(delivery);
                assert(delivery_views(deliveries@) =~= before.push(delivery@));
            }
        }
        i += 1;
    }
    assert(room@.players.take(i as int) =~= room@.players);
    deliveries
}

/// Addresses `updated_room` to each of its members but `except`; the empty
/// name excludes no one.
pub fn broadcast_room_update(state: &Server, updated_room: &Room, except: &str) -> (deliveries:
    Vec<Delivery>)
    ensures
        delivery_views(deliveries@) == fan_out(
            state@.connections,
            updated_room@.players,
            exclusion(except@),
            updated_room@,
        ),
{
    if except.is_empty() {
        notify_members(state, updated_room, None)
    } else {
        notify_members(state, updated_room, Some(except))
    }
}

} // verus!
