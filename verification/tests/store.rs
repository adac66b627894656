use werewolf_lobby::state::{generate_new_room_code, Server, ROOM_CODE_LEN};
use werewolf_lobby::types::Room;

fn is_code(code: &str) -> bool {
    code.chars().count() == 4 && code.chars().all(|c| ('A'..='Z').contains(&c))
}

#[test]
fn new_server_holds_nothing() {
    let server = Server::new();
    assert!(server.get_room("ABCD").is_none());
    assert!(server.get_room("").is_none());
    assert_eq!(server.get_player_connection("Alice"), None);
}

#[test]
fn default_server_holds_nothing() {
    let server = Server::default();
    assert!(server.get_room("ABCD").is_none());
    assert_eq!(server.get_player_connection("Alice"), None);
}

#[test]
fn room_codes_are_four_capital_letters() {
    assert_eq!(ROOM_CODE_LEN, 4);
    for _ in 0..200 {
        let code = generate_new_room_code();
        assert!(is_code(&code), "{code}");
        assert_eq!(code.len(), 4);
    }
}

#[test]
fn room_codes_are_drawn_not_fixed() {
    let codes: Vec<String> = (0..64).map(|_| generate_new_room_code()).collect();
    assert!(codes.iter().any(|code| code != &codes[0]));
    assert!(codes.iter().any(|code| code.chars().any(|c| c != 'A')));
    assert!(codes.iter().any(|code| code.chars().any(|c| c != 'Z')));
}

#[test]
fn create_new_room_stores_a_fresh_room_under_the_code() {
    let mut server = Server::new();
    let code = server.create_new_room("Alice");
    assert!(is_code(&code));
    assert_eq!(server.get_room(&code), Some(&Room::new("Alice")));
}

#[test]
fn open_room_stores_a_fresh_room_under_the_given_code() {
    let mut server = Server::new();
    server.open_room("QRST", "Alice");
    assert_eq!(server.get_room("QRST"), Some(&Room::new("Alice")));
    assert!(server.get_room("QRSU").is_none());
    assert!(server.get_room("qrst").is_none());
}

#[test]
fn open_room_on_a_used_code_replaces_the_room() {
    let mut server = Server::new();
    server.open_room("QRST", "Alice");
    server.open_room("QRST", "Bob");
    assert_eq!(server.get_room("QRST"), Some(&Room::new("Bob")));
}

#[test]
fn remove_room_drops_only_that_room() {
    let mut server = Server::new();
    server.open_room("AAAA", "Alice");
    server.open_room("BBBB", "Bob");
    server.remove_room("AAAA");
    assert!(server.get_room("AAAA").is_none());
    assert_eq!(server.get_room("BBBB"), Some(&Room::new("Bob")));
    server.remove_room("CCCC");
    assert_eq!(server.get_room("BBBB"), Some(&Room::new("Bob")));
}

#[test]
fn connections_are_found_by_player_name() {
    let mut server = Server::new();
    server.player_connected("Alice", 7);
    server.player_connected("Bob", 9);
    assert_eq!(server.get_player_connection("Alice"), Some(7));
    assert_eq!(server.get_player_connection("Bob"), Some(9));
    assert_eq!(server.get_player_connection("Carol"), None);
}

#[test]
fn last_registration_wins() {
    let mut server = Server::new();
    server.player_connected("Alice", 7);
    server.player_connected("Alice", 8);
    assert_eq!(server.get_player_connection("Alice"), Some(8));
}

#[test]
fn player_disconnected_unregisters_the_name() {
    let mut server = Server::new();
    server.player_connected("Alice", 7);
    server.player_connected("Bob", 9);
    server.player_disconnected("Alice");
    assert_eq!(server.get_player_connection("Alice"), None);
    assert_eq!(server.get_player_connection("Bob"), Some(9));
    server.player_disconnected("Alice");
    assert_eq!(server.get_player_connection("Alice"), None);
}

#[test]
fn connections_and_rooms_are_separate_tables() {
    let mut server = Server::new();
    server.open_room("AAAA", "Alice");
    server.player_connected("AAAA", 1);
    server.player_disconnected("AAAA");
    assert_eq!(server.get_room("AAAA"), Some(&Room::new("Alice")));
    server.player_connected("Alice", 2);
    server.remove_room("Alice");
    assert_eq!(server.get_player_connection("Alice"), Some(2));
}

#[test]
fn failed_delivery_unregisters_that_connection() {
    let mut server = Server::new();
    server.player_connected("Alice", 7);
    server.player_connected("Bob", 9);
    server.delivery_failed("Alice", 7);
    assert_eq!(server.get_player_connection("Alice"), None);
    assert_eq!(server.get_player_connection("Bob"), Some(9));
}

#[test]
fn failed_delivery_spares_a_newer_registration() {
    let mut server = Server::new();
    server.player_connected("Alice", 7);
    server.player_connected("Alice", 8);
    server.delivery_failed("Alice", 7);
    assert_eq!(server.get_player_connection("Alice"), Some(8));
    server.delivery_failed("Carol", 8);
    assert_eq!(server.get_player_connection("Alice"), Some(8));
}
