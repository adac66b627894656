//! Role catalog and the room a group of players gathers in.

use vstd::prelude::*;

verus! {

/// Number of roles in the catalog.
pub const ROLE_COUNT: usize = 15;

/// A character role of the game. The set is closed.
#[derive(Debug, Clone, Copy, PartialEq, Eq, Hash, Structural)]
pub enum Role {
    Doppelganger,
    Werewolf,
    AlphaWolf,
    MysticWolf,
    DreamWolf,
    Minion,
    Tanner,
    Mason,
    Seer,
    Hunter,
    Robber,
    VoodooLou,
    Troublemaker,
    Drunk,
    Insomniac,
}

impl Role {
    /// Position of the role in the catalog, in declaration order.
    pub open spec fn ordinal(self) -> int {
        match self {
            Role::Doppelganger => 0,
            Role::Werewolf => 1,
            Role::AlphaWolf => 2,
            Role::MysticWolf => 3,
            Role::DreamWolf => 4,
            Role::Minion => 5,
            Role::Tanner => 6,
            Role::Mason => 7,
            Role::Seer => 8,
            Role::Hunter => 9,
            Role::Robber => 10,
            Role::VoodooLou => 11,
            Role::Troublemaker => 12,
            Role::Drunk => 13,
            Role::Insomniac => 14,
        }
    }

    /// Every role once, in declaration order.
    pub open spec fn catalog() -> Seq<Role> {
        seq![
            Role::Doppelganger,
            Role::Werewolf,
            Role::AlphaWolf,
            Role::MysticWolf,
            Role::DreamWolf,
            Role::Minion,
            Role::Tanner,
            Role::Mason,
            Role::Seer,
            Role::Hunter,
            Role::Robber,
            Role::VoodooLou,
            Role::Troublemaker,
            Role::Drunk,
            Role::Insomniac,
        ]
    }

    /// The catalog lists each role at its ordinal, so it misses none and
    /// repeats none.
    pub proof fn lemma_catalog_is_complete(role: Role)
        ensures
            Role::catalog().len() == ROLE_COUNT,
            0 <= role.ordinal() < ROLE_COUNT,
            Role::catalog()[role.ordinal()] == role,
    {
    }

    /// Position of the role in the catalog.
    pub fn index(self) -> (i: usize)
        ensures
            i == self.ordinal(),
            i < ROLE_COUNT,
    {
        match self {
            Role::Doppelganger => 0,
            Role::Werewolf => 1,
            Role::AlphaWolf => 2,
            Role::MysticWolf => 3,
            Role::DreamWolf => 4,
            Role::Minion => 5,
            Role::Tanner => 6,
            Role::Mason => 7,
            Role::Seer => 8,
            Role::Hunter => 9,
            Role::Robber => 10,
            Role::VoodooLou => 11,
            Role::Troublemaker => 12,
            Role::Drunk => 13,
            Role::Insomniac => 14,
        }
    }

    /// Every role once, in declaration order.
    pub fn all() -> (roles: Vec<Role>)
        ensures
            roles@ == Role::catalog(),
    {
        vec![
            Role::Doppelganger,
            Role::Werewolf,
            Role::AlphaWolf,
            Role::MysticWolf,
            Role::DreamWolf,
            Role::Minion,
            Role::Tanner,
            Role::Mason,
            Role::Seer,
            Role::Hunter,
            Role::Robber,
            Role::VoodooLou,
            Role::Troublemaker,
            Role::Drunk,
            Role::Insomniac,
        ]
    }
}

impl Default for Role {
    fn default() -> (role: Role)
        ensures
            role == Role::Doppelganger,
    {
        Role::Doppelganger
    }
}

/// What a room holds, as mathematical values.
#[verifier::ext_equal]
pub struct RoomView {
    /// Member names in the order they joined.
    pub players: Seq<Seq<char>>,
    /// The member authoritative for configuration.
    pub host: Seq<char>,
    /// Target headcount of every role.
    pub roles: Map<Role, i64>,
}

impl RoomView {
    /// The room right after `player_name` created it: one member, who hosts,
    /// and a zero count for every role.
    pub open spec fn new(player_name: Seq<char>) -> RoomView {
        RoomView {
            players: seq![player_name],
            host: player_name,
            roles: Map::new(|role: Role| true, |role: Role| 0i64),
        }
    }

    /// The room with `player_name` appended to its members.
    pub open spec fn add_player(self, player_name: Seq<char>) -> RoomView {
        RoomView { players: self.players.push(player_name), ..self }
    }

    /// Whether `player_name` is among the members.
    pub open spec fn player_exists(self, player_name: Seq<char>) -> bool {
        self.players.contains(player_name)
    }

    /// The host once `player_name` leaves: the second-joined member when the
    /// departing player hosts and a second member exists, else unchanged.
    pub open spec fn host_after_removal(self, player_name: Seq<char>) -> Seq<char> {
        if player_name == self.host && self.players.len() >= 2 {
            self.players[1]
        } else {
            self.host
        }
    }

    /// The room without the first entry of `player_name`, the host handed
    /// on by position.
    pub open spec fn remove_player(self, player_name: Seq<char>) -> RoomView {
        RoomView {
            players: self.players.remove_value(player_name),
            host: self.host_after_removal(player_name),
            roles: self.roles,
        }
    }

    /// The room with the count of `role` overwritten.
    pub open spec fn change_role(self, role: Role, count: i64) -> RoomView {
        RoomView { roles: self.roles.insert(role, count), ..self }
    }

    /// Whether the room has no members.
    pub open spec fn is_empty(self) -> bool {
        self.players.len() == 0
    }

    /// Every role has a count.
    pub open spec fn roles_complete(self) -> bool {
        forall|role: Role| self.roles.contains_key(role)
    }

    /// The host is one of the members, unless there are none.
    pub open spec fn host_is_member(self) -> bool {
        !self.is_empty() ==> self.players.contains(self.host)
    }

    /// The first member hosts, unless there are none.
    pub open spec fn first_member_hosts(self) -> bool {
        !self.is_empty() ==> self.players[0] == self.host
    }

    /// The room has members and the first of them hosts.
    pub open spec fn live(self) -> bool {
        !self.is_empty() && self.first_member_hosts()
    }

    /// The room after one join or leave.
    pub open spec fn step(self, op: RoomOp) -> RoomView {
        match op {
            RoomOp::Join(player_name) => self.add_player(player_name),
            RoomOp::Leave(player_name) => self.remove_player(player_name),
        }
    }

    /// The room after the joins and leaves of `ops`, applied in order.
    pub open spec fn run(self, ops: Seq<RoomOp>) -> RoomView
        decreases ops.len(),
    {
        if ops.len() == 0 {
            self
        } else {
            self.run(ops.drop_last()).step(ops.last())
        }
    }

    /// Whether `op` leaves the host a member: a join into a room that has
    /// been emptied must use the name of its last host, since joining does
    /// not appoint a host.
    pub open spec fn admits(self, op: RoomOp) -> bool {
        op matches RoomOp::Join(player_name) ==> (self.is_empty() ==> player_name == self.host)
    }

    /// Whether every step of `ops` is admitted by the room it is applied to.
    pub open spec fn admits_all(self, ops: Seq<RoomOp>) -> bool {
        forall|i: int| 0 <= i < ops.len() ==> self.run(ops.take(i)).admits(#[trigger] ops[i])
    }

    /// A fresh room has its creator as first member and host.
    pub proof fn lemma_new_is_live(player_name: Seq<char>)
        ensures
            RoomView::new(player_name).live(),
            RoomView::new(player_name).roles_complete(),
    {
    }

    /// Where the first member hosts, the host is a member.
    pub proof fn lemma_first_member_hosts(self)
        requires
            self.first_member_hosts(),
        ensures
            self.host_is_member(),
    {
        if !self.is_empty() {
            assert(self.players[0] == self.host);
        }
    }

    /// An admitted join or leave keeps the first member as host; a join
    /// that is not admitted leaves the room with a host who is no member.
    pub proof fn lemma_step_keeps_first_member_host(self, op: RoomOp)
        requires
            self.first_member_hosts(),
        ensures
            self.admits(op) ==> self.step(op).first_member_hosts(),
            !self.admits(op) ==> !self.step(op).host_is_member(),
            op is Join ==> !self.step(op).is_empty(),
    {
        match op {
            RoomOp::Join(player_name) => {
                let joined = self.add_player(player_name);
                if !self.admits(op) {
                    assert(joined.players =~= seq![player_name]);
                    assert forall|i: int| 0 <= i < joined.players.len() implies joined.players[i]
                        != joined.host by {}
                }
            },
            RoomOp::Leave(player_name) => {
                self.players.index_of_first_ensures(player_name);
            },
        }
    }

    /// Removal takes out the first entry of the name and keeps the others
    /// in their order.
    pub proof fn lemma_remove_player_first_entry(self, player_name: Seq<char>, index: int)
        requires
            0 <= index < self.players.len(),
            self.players[index] == player_name,
            forall|i: int| 0 <= i < index ==> self.players[i] != player_name,
        ensures
            self.remove_player(player_name).players == self.players.remove(index),
    {
        self.players.index_of_first_ensures(player_name);
    }

    /// Removing a name that no member bears changes the members not at all.
    pub proof fn lemma_remove_player_absent(self, player_name: Seq<char>)
        requires
            !self.players.contains(player_name),
        ensures
            self.remove_player(player_name).players == self.players,
            self.remove_player(player_name).roles == self.roles,
    {
        self.players.index_of_first_ensures(player_name);
    }

    /// Removing a member other than the last one leaves a live room live,
    /// and removing the last one empties it.
    pub proof fn lemma_remove_player_live(self, player_name: Seq<char>)
        requires
            self.live(),
        ensures
            self.remove_player(player_name).is_empty() || self.remove_player(player_name).live(),
            self.remove_player(player_name).is_empty() <==> self.players == seq![player_name],
    {
        self.lemma_step_keeps_first_member_host(RoomOp::Leave(player_name));
        self.players.index_of_first_ensures(player_name);
        if self.players.len() == 1 && self.players[0] == player_name {
            assert(self.players =~= seq![player_name]);
        }
    }

    /// For every sequence of joins and leaves on a fresh room in which no
    /// one joins an emptied room under a new name, the host is a member
    /// after each step, whenever the room has members.
    pub proof fn lemma_host_stays_member(player_name: Seq<char>, ops: Seq<RoomOp>)
        requires
            RoomView::new(player_name).admits_all(ops),
        ensures
            forall|i: int|
                0 <= i <= ops.len() ==> (#[trigger] RoomView::new(player_name).run(
                    ops.take(i),
                )).host_is_member(),
    {
        let room = RoomView::new(player_name);
        assert forall|i: int| 0 <= i <= ops.len() implies (#[trigger] room.run(
            ops.take(i),
        )).host_is_member() by {
            room.lemma_admits_prefix(ops, i);
            room.lemma_run_keeps_first_member_host(ops.take(i));
            room.run(ops.take(i)).lemma_first_member_hosts();
        }
    }

    /// The condition on joins is needed: the first step that is not
    /// admitted leaves the room with a host who is no member.
    pub proof fn lemma_unadmitted_step_unseats_host(
        player_name: Seq<char>,
        ops: Seq<RoomOp>,
        n: int,
    )
        requires
            0 <= n < ops.len(),
            RoomView::new(player_name).admits_all(ops.take(n)),
            !RoomView::new(player_name).run(ops.take(n)).admits(ops[n]),
        ensures
            !RoomView::new(player_name).run(ops.take(n + 1)).host_is_member(),
    {
        let room = RoomView::new(player_name);
        room.lemma_run_keeps_first_member_host(ops.take(n));
        room.run(ops.take(n)).lemma_step_keeps_first_member_host(ops[n]);
        assert(ops.take(n + 1).drop_last() =~= ops.take(n));
        assert(ops.take(n + 1).last() == ops[n]);
    }

    /// A prefix of an admitted sequence is admitted.
    pub proof fn lemma_admits_prefix(self, ops: Seq<RoomOp>, n: int)
        requires
            self.admits_all(ops),
            0 <= n <= ops.len(),
        ensures
            self.admits_all(ops.take(n)),
    {
        let prefix = ops.take(n);
        assert forall|i: int| 0 <= i < prefix.len() implies self.run(prefix.take(i)).admits(
            #[trigger] prefix[i],
        ) by {
            assert(prefix.take(i) =~= ops.take(i));
            assert(prefix[i] == ops[i]);
        }
    }

    /// An admitted sequence of joins and leaves keeps the first member as
    /// host.
    pub proof fn lemma_run_keeps_first_member_host(self, ops: Seq<RoomOp>)
        requires
            self.first_member_hosts(),
            self.admits_all(ops),
        ensures
            self.run(ops).first_member_hosts(),
        decreases ops.len(),
    {
        if ops.len() > 0 {
            let n = ops.len() - 1;
            assert(ops.take(n) =~= ops.drop_last());
            self.lemma_admits_prefix(ops, n);
            self.lemma_run_keeps_first_member_host(ops.drop_last());
            assert(self.run(ops.take(n)).admits(ops[n]));
            self.run(ops.drop_last()).lemma_step_keeps_first_member_host(ops.last());
        }
    }

    /// Setting a role's count twice to the same value gives the same counts
    /// as setting it once.
    pub proof fn lemma_change_role_idempotent(self, role: Role, count: i64)
        ensures
            self.change_role(role, count).change_role(role, count) == self.change_role(role, count),
    {
        assert(self.roles.insert(role, count).insert(role, count) =~= self.roles.insert(
            role,
            count,
        ));
    }

    /// Setting a role's count changes no other role's count and keeps the
    /// members and the host.
    pub proof fn lemma_change_role_frame(self, role: Role, count: i64, other: Role)
        requires
            self.roles_complete(),
        ensures
            self.change_role(role, count).roles_complete(),
            self.change_role(role, count).roles[role] == count,
            other != role ==> self.change_role(role, count).roles[other] == self.roles[other],
            self.change_role(role, count).players == self.players,
            self.change_role(role, count).host == self.host,
    {
    }
}

/// A change of membership: a player joins or leaves.
pub enum RoomOp {
    Join(Seq<char>),
    Leave(Seq<char>),
}

/// A lobby room: members in join order, their host, and the target
/// headcount per role.
#[derive(Debug, PartialEq, Eq)]
pub struct Room {
    players: Vec<String>,
    host: String,
    roles: [i64; 15],
}

impl View for Room {
    type V = RoomView;

    closed spec fn view(&self) -> RoomView {
        RoomView {
            players: Seq::new(self.players@.len(), |i: int| self.players@[i]@),
            host: self.host@,
            roles: Map::new(|role: Role| true, |role: Role| self.roles@[role.ordinal()]),
        }
    }
}

impl Clone for Room {
    fn clone(&self) -> (room: Room)
        ensures
            room@ == self@,
    {
        let room = Room {
            players: self.players.clone(),
            host: self.host.clone(),
            roles: self.roles,
        };
        assert(room@.players =~= self@.players);
        room
    }
}

impl Room {
    /// A room created by `player_name`, its only member and host.
    pub fn new(player_name: &str) -> (room: Room)
        ensures
            room@ == RoomView::new(player_name@),
    {
        let room = Room {
            players: vec![player_name.to_string()],
            host: player_name.to_string(),
            roles: [0i64; 15],
        };
        assert(room@.players =~= seq![player_name@]);
        assert(room@.roles =~= RoomView::new(player_name@).roles);
        room
    }

    /// Whatever was done to a room, it holds a count for every role.
    pub proof fn lemma_every_role_counted(&self)
        ensures
            self@.roles_complete(),
    {
    }

    /// Index of the first entry of `player_name` among the members.
    pub fn player_index(&self, player_name: &str) -> (index: Option<usize>)
        ensures
            match index {
                Some(i) => {
                    &&& i < self@.players.len()
                    &&& self@.players[i as int] == player_name@
                    &&& forall|j: int| 0 <= j < i ==> self@.players[j] != player_name@
                    &&& self@.players.index_of_first(player_name@) == Some(i as int)
                },
                None => !self@.players.contains(player_name@),
            },
    {
        let needle = player_name.to_string();
        let mut i: usize = 0;
        while i < self.players.len()
            invariant
                i <= self.players.len(),
                needle@ == player_name@,
                forall|j: int| 0 <= j < i ==> self@.players[j] != player_name@,
            decreases self.players.len() - i,
        {
            if self.players[i] == needle {
                proof {
                    let members = self@.players;
                    assert(members[i as int] == player_name@);
                    members.index_of_first_ensures(player_name@);
                }
                return Some(i);
            }
            i += 1;
        }
        None
    }

    /// Appends `player_name` to the members, whether or not the name is
    /// already among them.
    pub fn add_player(&mut self, player_name: &str)
        ensures
            final(self)@ == old(self)@.add_player(player_name@),
    {
        self.players.push(player_name.to_string());
        assert(self@.players =~= old(self)@.players.push(player_name@));
    }

    /// Whether `player_name` is among the members.
    pub fn player_exists(&self, player_name: &str) -> (exists: bool)
        ensures
            exists == self@.player_exists(player_name@),
    {
        self.player_index(player_name).is_some()
    }

    /// Removes the first entry of `player_name`. When the host leaves, the
    /// second-joined member takes over, if there is one.
    pub fn remove_player(&mut self, player_name: &str)
        ensures
            final(self)@ == old(self)@.remove_player(player_name@),
    {
        if self.host == player_name.to_string() {
            if self.players.len() >= 2 {
                self.host = self.players[1].clone();
            }
        }
        assert(self@.players == old(self)@.players);
        assert(self@.host == old(self)@.host_after_removal(player_name@));
        proof {
            old(self)@.players.index_of_first_ensures(player_name@);
        }
        if let Some(index) = self.player_index(player_name) {
            self.players.remove(index);
            assert(self@.players =~= old(self)@.players.remove(index as int));
        }
    }

    /// Overwrites the target headcount of `role`.
    pub fn change_role(&mut self, role: Role, count: i64)
        ensures
            final(self)@ == old(self)@.change_role(role, count),
    {
        self.roles[role.index()] = count;
        assert(self@.roles =~= old(self)@.roles.insert(role, count));
    }

    /// Whether the room has no members.
    pub fn is_empty(&self) -> (empty: bool)
        ensures
            empty == self@.is_empty(),
    {
        self.players.len() == 0
    }

    /// The members in join order.
    pub fn players(&self) -> (players: &Vec<String>)
        ensures
            players@.len() == self@.players.len(),
            forall|i: int| 0 <= i < players@.len() ==> players@[i]@ == self@.players[i],
    {
        &self.players
    }

    /// The member authoritative for configuration.
    pub fn host(&self) -> (host: &str)
        ensures
            host@ == self@.host,
    {
        self.host.as_str()
    }

    /// The target headcount of `role`.
    pub fn role_count(&self, role: Role) -> (count: i64)
        ensures
            self@.roles.contains_key(role),
            count == self@.roles[role],
    {
        self.roles[role.index()]
    }
}

} // verus!
