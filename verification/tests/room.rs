use werewolf_lobby::types::{Role, Room, ROLE_COUNT};

fn names(room: &Room) -> Vec<&str> {
    room.players().iter().map(|name| name.as_str()).collect()
}

#[test]
fn catalog_lists_fifteen_roles_in_order() {
    let roles = Role::all();
    assert_eq!(roles.len(), 15);
    assert_eq!(ROLE_COUNT, 15);
    assert_eq!(roles[0], Role::Doppelganger);
    assert_eq!(roles[1], Role::Werewolf);
    assert_eq!(roles[7], Role::Mason);
    assert_eq!(roles[14], Role::Insomniac);
    for (position, role) in roles.iter().enumerate() {
        assert_eq!(role.index(), position);
    }
}

#[test]
fn catalog_repeats_no_role() {
    let roles = Role::all();
    for a in 0..roles.len() {
        for b in 0..roles.len() {
            assert_eq!(roles[a] == roles[b], a == b);
        }
    }
}

#[test]
fn default_role_is_doppelganger() {
    assert_eq!(Role::default(), Role::Doppelganger);
}

#[test]
fn new_room_has_creator_as_sole_member_and_host() {
    let room = Room::new("Alice");
    assert_eq!(names(&room), vec!["Alice"]);
    assert_eq!(room.host(), "Alice");
    assert!(!room.is_empty());
}

#[test]
fn new_room_counts_zero_for_every_role() {
    let room = Room::new("Alice");
    for role in Role::all() {
        assert_eq!(room.role_count(role), 0);
    }
}

#[test]
fn add_player_appends_in_join_order() {
    let mut room = Room::new("Alice");
    room.add_player("Bob");
    room.add_player("Carol");
    assert_eq!(names(&room), vec!["Alice", "Bob", "Carol"]);
    assert_eq!(room.host(), "Alice");
}

#[test]
fn add_player_does_not_check_for_duplicates() {
    let mut room = Room::new("Alice");
    room.add_player("Alice");
    assert_eq!(names(&room), vec!["Alice", "Alice"]);
}

#[test]
fn player_exists_scans_all_members() {
    let mut room = Room::new("Alice");
    room.add_player("Bob");
    assert!(room.player_exists("Alice"));
    assert!(room.player_exists("Bob"));
    assert!(!room.player_exists("Carol"));
    assert!(!room.player_exists("alice"));
    assert!(!room.player_exists(""));
}

#[test]
fn player_index_gives_first_entry() {
    let mut room = Room::new("Alice");
    room.add_player("Bob");
    room.add_player("Bob");
    assert_eq!(room.player_index("Alice"), Some(0));
    assert_eq!(room.player_index("Bob"), Some(1));
    assert_eq!(room.player_index("Carol"), None);
}

#[test]
fn host_leaving_hands_over_to_second_joiner() {
    let mut room = Room::new("Alice");
    room.add_player("Bob");
    room.add_player("Carol");
    room.remove_player("Alice");
    assert_eq!(names(&room), vec!["Bob", "Carol"]);
    assert_eq!(room.host(), "Bob");
}

#[test]
fn host_handover_is_positional_each_time() {
    let mut room = Room::new("Alice");
    room.add_player("Bob");
    room.add_player("Carol");
    room.remove_player("Alice");
    room.remove_player("Bob");
    assert_eq!(names(&room), vec!["Carol"]);
    assert_eq!(room.host(), "Carol");
}

#[test]
fn sole_host_leaving_empties_room_without_handover() {
    let mut room = Room::new("Alice");
    room.remove_player("Alice");
    assert!(room.is_empty());
    assert_eq!(names(&room), Vec::<&str>::new());
    assert_eq!(room.host(), "Alice");
}

#[test]
fn other_member_leaving_keeps_host() {
    let mut room = Room::new("Alice");
    room.add_player("Bob");
    room.add_player("Carol");
    room.remove_player("Bob");
    assert_eq!(names(&room), vec!["Alice", "Carol"]);
    assert_eq!(room.host(), "Alice");
}

#[test]
fn removing_a_stranger_changes_nothing() {
    let mut room = Room::new("Alice");
    room.add_player("Bob");
    let before = room.clone();
    room.remove_player("Mallory");
    assert_eq!(room, before);
}

#[test]
fn remove_player_takes_first_matching_entry_only() {
    let mut room = Room::new("Alice");
    room.add_player("Bob");
    room.add_player("Carol");
    room.add_player("Bob");
    room.remove_player("Bob");
    assert_eq!(names(&room), vec!["Alice", "Carol", "Bob"]);
    assert_eq!(room.host(), "Alice");
}

#[test]
fn duplicate_host_leaving_keeps_a_namesake_as_host() {
    let mut room = Room::new("Alice");
    room.add_player("Alice");
    room.add_player("Bob");
    room.remove_player("Alice");
    assert_eq!(names(&room), vec!["Alice", "Bob"]);
    assert_eq!(room.host(), "Alice");
}

#[test]
fn host_is_a_member_after_each_join_and_leave() {
    let mut room = Room::new("Alice");
    let steps: Vec<(bool, &str)> = vec![
        (true, "Bob"),
        (true, "Carol"),
        (false, "Alice"),
        (true, "Dave"),
        (false, "Carol"),
        (false, "Bob"),
        (true, "Erin"),
        (false, "Mallory"),
        (false, "Dave"),
    ];
    for (join, name) in steps {
        if join {
            room.add_player(name);
        } else {
            room.remove_player(name);
        }
        assert!(!room.is_empty());
        assert!(room.player_exists(room.host()));
        assert_eq!(room.players()[0].as_str(), room.host());
    }
    assert_eq!(names(&room), vec!["Erin"]);
    assert_eq!(room.host(), "Erin");
}

#[test]
fn joining_an_emptied_room_appoints_no_host() {
    let mut room = Room::new("Alice");
    room.remove_player("Alice");
    room.add_player("Bob");
    assert_eq!(names(&room), vec!["Bob"]);
    assert_eq!(room.host(), "Alice");
    assert!(!room.player_exists(room.host()));
}

#[test]
fn leaving_an_empty_room_changes_nothing() {
    let mut room = Room::new("Alice");
    room.remove_player("Alice");
    let before = room.clone();
    room.remove_player("Alice");
    room.remove_player("Bob");
    assert_eq!(room, before);
}

#[test]
fn change_role_overwrites_one_count() {
    let mut room = Room::new("Alice");
    room.change_role(Role::Werewolf, 2);
    room.change_role(Role::Seer, 1);
    room.change_role(Role::Werewolf, 3);
    for role in Role::all() {
        let expected = match role {
            Role::Werewolf => 3,
            Role::Seer => 1,
            _ => 0,
        };
        assert_eq!(room.role_count(role), expected);
    }
    assert_eq!(names(&room), vec!["Alice"]);
    assert_eq!(room.host(), "Alice");
}

#[test]
fn change_role_twice_equals_once() {
    let mut once = Room::new("Alice");
    once.change_role(Role::Minion, 4);
    let mut twice = Room::new("Alice");
    twice.change_role(Role::Minion, 4);
    twice.change_role(Role::Minion, 4);
    assert_eq!(once, twice);
}

#[test]
fn change_role_takes_any_count() {
    let mut room = Room::new("Alice");
    room.change_role(Role::Tanner, -7);
    assert_eq!(room.role_count(Role::Tanner), -7);
    room.change_role(Role::Tanner, i64::MAX);
    assert_eq!(room.role_count(Role::Tanner), i64::MAX);
    room.change_role(Role::Tanner, i64::MIN);
    assert_eq!(room.role_count(Role::Tanner), i64::MIN);
}

#[test]
fn clone_copies_members_host_and_counts() {
    let mut room = Room::new("Alice");
    room.add_player("Bob");
    room.change_role(Role::Drunk, 1);
    let copy = room.clone();
    assert_eq!(copy, room);
    room.add_player("Carol");
    assert_eq!(names(&copy), vec!["Alice", "Bob"]);
    assert_eq!(copy.role_count(Role::Drunk), 1);
}

#[test]
fn empty_name_is_a_name_like_any_other() {
    let mut room = Room::new("");
    assert_eq!(names(&room), vec![""]);
    assert_eq!(room.host(), "");
    assert!(room.player_exists(""));
    room.add_player("Bob");
    room.remove_player("");
    assert_eq!(names(&room), vec!["Bob"]);
    assert_eq!(room.host(), "Bob");
}
