use multiplayer_fps::client::player::{add_player, remove_player, simulation_tir, Players, INITIAL_HEALTH};
use multiplayer_fps::common::constant::PlayerCount;
use multiplayer_fps::common::protocol::{GameMessage, MessageContent, MessageType};
use multiplayer_fps::server::handlers::{
    broadcast_game_update, choose_place, choose_place_with_draw, handle_game_update, handle_message,
    send_new_connection_message, send_wait_for_players_message, set_is_occupied, spawn_index,
    ServerState, SpawnPoints, SPAWN_COUNT,
};
use multiplayer_fps::server::udp::{broadcast_message, Outgoing, Reply};

fn msg(kind: MessageType, sender: &str, content: MessageContent) -> GameMessage {
    GameMessage { message_type: kind, sender: sender.to_string(), content }
}

fn join(state: &mut ServerState, name: &str, addr: &str) -> Vec<Outgoing> {
    let m = msg(
        MessageType::NewConnection,
        name,
        MessageContent::NewConnection { name: name.to_string() },
    );
    handle_message(state, &m, addr, &PlayerCount::new(2)).outgoing
}

fn ready(name: &str) -> GameMessage {
    msg(
        MessageType::PlayerAction,
        name,
        MessageContent::PlayerAction { ready: true, sequence_number: 0 },
    )
}

#[test]
fn spawn_keys_name_points() {
    assert_eq!(spawn_index("1"), Some(0));
    assert_eq!(spawn_index("9"), Some(8));
    assert_eq!(spawn_index("10"), Some(9));
    assert_eq!(spawn_index("0"), None);
    assert_eq!(spawn_index("11"), None);
    assert_eq!(spawn_index("01"), None);
    assert_eq!(spawn_index(""), None);
    assert_eq!(spawn_index("abc"), None);
}

#[test]
fn set_is_occupied_then_read_back() {
    let mut s = SpawnPoints::new();
    set_is_occupied(&mut s, "3", true);
    assert!(s.is_occupied(2));
    for i in 0..SPAWN_COUNT {
        if i != 2 {
            assert!(!s.is_occupied(i));
        }
    }
    set_is_occupied(&mut s, "3", false);
    assert!(!s.is_occupied(2));
    set_is_occupied(&mut s, "12", true);
    for i in 0..SPAWN_COUNT {
        assert!(!s.is_occupied(i));
    }
}

#[test]
fn choose_place_with_draw_picks_among_free_points() {
    let mut s = SpawnPoints::new();
    assert_eq!(choose_place_with_draw(&mut s, 3), Some(3));
    assert!(s.is_occupied(3));
    // free points are now 0,1,2,4,...,9: position 3 is point 4
    assert_eq!(choose_place_with_draw(&mut s, 3), Some(4));
    // draws wrap around the number of free points (8 left)
    assert_eq!(choose_place_with_draw(&mut s, 8), Some(0));
    assert_eq!(s.free_points(), vec![1, 2, 5, 6, 7, 8, 9]);
}

#[test]
fn choose_place_fills_every_point_then_refuses() {
    let mut s = SpawnPoints::new();
    let mut seen = Vec::new();
    for _ in 0..SPAWN_COUNT {
        let p = choose_place(&mut s).expect("a point is free");
        assert!(p < SPAWN_COUNT);
        assert!(!seen.contains(&p));
        assert!(s.is_occupied(p));
        seen.push(p);
    }
    assert_eq!(choose_place(&mut s), None);
    assert_eq!(choose_place_with_draw(&mut s, 0), None);
}

#[test]
fn registry_add_find_remove() {
    let mut ps = Players::new();
    assert!(add_player(&mut ps, "alice".to_string(), "10.0.0.1:5000".to_string(), Some(1)));
    assert!(add_player(&mut ps, "bob".to_string(), "10.0.0.2:5000".to_string(), None));
    assert!(!add_player(&mut ps, "alice".to_string(), "10.0.0.9:1".to_string(), Some(7)));
    assert_eq!(ps.len(), 2);
    assert_eq!(ps.find("bob"), Some(1));
    assert_eq!(ps.get(0).address, "10.0.0.1:5000");
    assert_eq!(ps.get(0).health, INITIAL_HEALTH);
    assert!(!ps.get(0).ready);
    assert_eq!(ps.find("carol"), None);
    let removed = remove_player(&mut ps, "alice").expect("alice is connected");
    assert_eq!(removed.name, "alice");
    assert_eq!(removed.spawn, Some(1));
    assert_eq!(ps.len(), 1);
    assert_eq!(ps.find("bob"), Some(0));
    assert!(remove_player(&mut ps, "alice").is_none());
}

#[test]
fn leave_undoes_join() {
    let mut ps = Players::new();
    add_player(&mut ps, "bob".to_string(), "b".to_string(), None);
    let before: Vec<String> = (0..ps.len()).map(|i| ps.get(i).name.clone()).collect();
    add_player(&mut ps, "zed".to_string(), "z".to_string(), Some(2));
    remove_player(&mut ps, "zed");
    let after: Vec<String> = (0..ps.len()).map(|i| ps.get(i).name.clone()).collect();
    assert_eq!(before, after);
}

#[test]
fn test_shot_lowers_health_and_reports_deaths() {
    let mut ps = Players::new();
    add_player(&mut ps, "a".to_string(), "x".to_string(), None);
    add_player(&mut ps, "b".to_string(), "y".to_string(), None);
    let (hits, died) = simulation_tir(&mut ps);
    assert_eq!(hits, 2);
    assert!(died.is_empty());
    assert_eq!(ps.get(0).health, 2);
    simulation_tir(&mut ps);
    let (hits, died) = simulation_tir(&mut ps);
    assert_eq!(hits, 2);
    assert_eq!(died, vec!["a".to_string(), "b".to_string()]);
    let (hits, died) = simulation_tir(&mut ps);
    assert_eq!(hits, 0);
    assert!(died.is_empty());
    assert_eq!(ps.get(1).health, 0);
}

#[test]
fn broadcast_excludes_only_the_named_player() {
    let mut ps = Players::new();
    add_player(&mut ps, "a".to_string(), "1".to_string(), None);
    add_player(&mut ps, "b".to_string(), "2".to_string(), None);
    add_player(&mut ps, "c".to_string(), "3".to_string(), None);
    let out = broadcast_message(&ps, &Reply::Relay, Some("b"), false);
    let addrs: Vec<&str> = out.iter().map(|o| o.address.as_str()).collect();
    assert_eq!(addrs, vec!["1", "3"]);
    let out = broadcast_message(&ps, &Reply::Relay, Some("b"), true);
    assert_eq!(out.len(), 3);
    let out = broadcast_message(&ps, &Reply::Echo, None, false);
    assert_eq!(out.len(), 3);
    assert!(out.iter().all(|o| o.reply == Reply::Echo));
}

#[test]
fn new_connection_announces_and_asks_to_wait() {
    let mut st = ServerState::new();
    let out = join(&mut st, "alice", "10.0.0.1:4000");
    assert_eq!(
        out,
        vec![
            Outgoing {
                address: "10.0.0.1:4000".to_string(),
                reply: Reply::NewConnection { name: "alice".to_string() },
            },
            Outgoing {
                address: "10.0.0.1:4000".to_string(),
                reply: Reply::WaitForPlayers { msg: "Please wait for other players...".to_string() },
            },
        ]
    );
    let out = join(&mut st, "bob", "10.0.0.2:4000");
    assert_eq!(out.len(), 4);
    assert_eq!(out[1].reply, Reply::NewConnection { name: "bob".to_string() });
    assert_eq!(out[1].address, "10.0.0.2:4000");
    let a = st.players.get(0).spawn.unwrap();
    let b = st.players.get(1).spawn.unwrap();
    assert_ne!(a, b);
    assert!(st.spawns.is_occupied(a) && st.spawns.is_occupied(b));
}

#[test]
fn joining_twice_keeps_the_first_entry() {
    let mut st = ServerState::new();
    join(&mut st, "alice", "A");
    let out = join(&mut st, "alice", "B");
    assert_eq!(st.players.len(), 1);
    assert_eq!(st.players.get(0).address, "A");
    assert_eq!(out.len(), 2);
    assert_eq!(out[0].address, "A");
    // the second attempt still took a spawn point
    assert_eq!(st.spawns.free_points().len(), SPAWN_COUNT - 2);
}

#[test]
fn game_starts_when_the_last_expected_player_is_ready() {
    let mut st = ServerState::new();
    let count = PlayerCount::new(2);
    join(&mut st, "alice", "A");
    join(&mut st, "bob", "B");
    let step = handle_message(&mut st, &ready("alice"), "A", &count);
    assert!(step.outgoing.is_empty());
    assert!(!step.move_sender);
    assert!(st.players.get(0).ready);
    let step = handle_message(&mut st, &ready("bob"), "B", &count);
    assert_eq!(
        step.outgoing,
        vec![
            Outgoing { address: "A".to_string(), reply: Reply::StartGame { msg: "start".to_string() } },
            Outgoing { address: "B".to_string(), reply: Reply::StartGame { msg: "start".to_string() } },
        ]
    );
}

#[test]
fn game_waits_while_fewer_players_than_expected() {
    let mut st = ServerState::new();
    let count = PlayerCount::new(3);
    join(&mut st, "alice", "A");
    join(&mut st, "bob", "B");
    handle_message(&mut st, &ready("alice"), "A", &count);
    let step = handle_message(&mut st, &ready("bob"), "B", &count);
    assert!(step.outgoing.is_empty());
}

#[test]
fn movement_action_broadcasts_the_position() {
    let mut st = ServerState::new();
    join(&mut st, "alice", "A");
    join(&mut st, "bob", "B");
    let m = msg(
        MessageType::PlayerAction,
        "bob",
        MessageContent::PlayerAction { ready: false, sequence_number: 42 },
    );
    let step = handle_message(&mut st, &m, "B", &PlayerCount::new(2));
    assert!(step.move_sender);
    assert_eq!(step.outgoing.len(), 2);
    assert!(step.outgoing.iter().all(|o| o.reply
        == Reply::PositionUpdate { player: "bob".to_string(), sequence_number: 42 }));
    // from an unknown player nothing happens
    let m = msg(
        MessageType::PlayerAction,
        "eve",
        MessageContent::PlayerAction { ready: false, sequence_number: 1 },
    );
    let step = handle_message(&mut st, &m, "E", &PlayerCount::new(2));
    assert!(!step.move_sender && step.outgoing.is_empty());
    // a player action with another body does nothing either
    let m = msg(MessageType::PlayerAction, "bob", MessageContent::GameUpdate { sequence_number: 1 });
    let step = handle_message(&mut st, &m, "B", &PlayerCount::new(2));
    assert!(!step.move_sender && step.outgoing.is_empty());
}

#[test]
fn game_updates_are_relayed_to_everyone() {
    let mut st = ServerState::new();
    join(&mut st, "alice", "A");
    join(&mut st, "bob", "B");
    let m = msg(MessageType::GameUpdate, "alice", MessageContent::GameUpdate { sequence_number: 5 });
    let step = handle_message(&mut st, &m, "A", &PlayerCount::new(2));
    let addrs: Vec<&str> = step.outgoing.iter().map(|o| o.address.as_str()).collect();
    assert_eq!(addrs, vec!["A", "B"]);
    assert!(step.outgoing.iter().all(|o| o.reply == Reply::Relay));
}

#[test]
fn disconnect_echoes_and_tells_the_others() {
    let mut st = ServerState::new();
    join(&mut st, "alice", "A");
    join(&mut st, "bob", "B");
    join(&mut st, "carol", "C");
    let m = msg(
        MessageType::Disconnect,
        "bob",
        MessageContent::Disconnect { reason: "bye".to_string() },
    );
    let step = handle_message(&mut st, &m, "B", &PlayerCount::new(2));
    assert_eq!(st.players.len(), 2);
    assert_eq!(st.players.find("bob"), None);
    let status = Reply::ServerInfo { server_status: "bob has disconnected.".to_string() };
    assert_eq!(
        step.outgoing,
        vec![
            Outgoing { address: "B".to_string(), reply: Reply::Echo },
            Outgoing { address: "A".to_string(), reply: status.copy() },
            Outgoing { address: "C".to_string(), reply: status },
        ]
    );
    // an unknown sender changes nothing
    let m = msg(MessageType::Disconnect, "bob", MessageContent::Disconnect { reason: "x".to_string() });
    let step = handle_message(&mut st, &m, "B", &PlayerCount::new(2));
    assert!(step.outgoing.is_empty());
    assert_eq!(st.players.len(), 2);
}

#[test]
fn other_kinds_are_ignored_by_the_server() {
    let mut st = ServerState::new();
    join(&mut st, "alice", "A");
    for kind in [MessageType::ServerInfo, MessageType::WaitForPlayers, MessageType::StartGame] {
        let m = msg(kind, "alice", MessageContent::ServerInfo { server_status: "s".to_string() });
        let step = handle_message(&mut st, &m, "A", &PlayerCount::new(2));
        assert!(step.outgoing.is_empty());
        assert!(!step.move_sender);
        assert_eq!(st.players.len(), 1);
    }
}

#[test]
fn player_count_accessors() {
    let mut c = PlayerCount::new(4);
    assert_eq!(c.get_min_players(), 4);
    c.set_min_players(7);
    assert_eq!(c.get_min_players(), 7);
    assert_eq!(PlayerCount::default().get_min_players(), 0);
}

#[test]
fn connections_are_refused_once_the_game_started() {
    let mut st = ServerState::new();
    let count = PlayerCount::new(2);
    join(&mut st, "alice", "A");
    join(&mut st, "bob", "B");
    let step = handle_message(&mut st, &ready("alice"), "A", &count);
    assert!(!step.game_started);
    assert!(!st.started);
    let step = handle_message(&mut st, &ready("bob"), "B", &count);
    assert!(step.game_started);
    assert!(st.started);
    let free_before = st.spawns.free_points();
    let out = join(&mut st, "carol", "C");
    assert!(out.is_empty());
    assert_eq!(st.players.len(), 2);
    assert_eq!(st.players.find("carol"), None);
    assert_eq!(st.spawns.free_points(), free_before);
    // players still leave normally
    let m = msg(MessageType::Disconnect, "alice", MessageContent::Disconnect { reason: "q".to_string() });
    let step = handle_message(&mut st, &m, "A", &count);
    assert_eq!(step.outgoing.len(), 2);
    assert!(st.started);
}

#[test]
fn connected_players_never_share_a_spawn_point() {
    let mut st = ServerState::new();
    for k in 0..12 {
        join(&mut st, &format!("p{}", k), &format!("addr{}", k));
    }
    assert_eq!(st.players.len(), 12);
    let mut spawns: Vec<usize> = (0..st.players.len()).filter_map(|i| st.players.get(i).spawn).collect();
    assert_eq!(spawns.len(), SPAWN_COUNT);
    spawns.sort();
    spawns.dedup();
    assert_eq!(spawns.len(), SPAWN_COUNT);
    assert!(st.players.get(10).spawn.is_none());
    assert!(st.players.get(11).spawn.is_none());
}

#[test]
fn server_messages_go_to_every_player() {
    let mut ps = Players::new();
    add_player(&mut ps, "a".to_string(), "1".to_string(), None);
    add_player(&mut ps, "b".to_string(), "2".to_string(), None);
    let out = send_new_connection_message(&ps, "b");
    assert_eq!(
        out,
        vec![
            Outgoing { address: "1".to_string(), reply: Reply::NewConnection { name: "b".to_string() } },
            Outgoing { address: "2".to_string(), reply: Reply::NewConnection { name: "b".to_string() } },
        ]
    );
    let out = send_wait_for_players_message(&ps);
    assert_eq!(out.len(), 2);
    assert!(out.iter().all(|o| o.reply
        == Reply::WaitForPlayers { msg: "Please wait for other players...".to_string() }));
    let out = broadcast_game_update(&ps, "a", 9);
    assert_eq!(out[1], Outgoing {
        address: "2".to_string(),
        reply: Reply::PositionUpdate { player: "a".to_string(), sequence_number: 9 },
    });
    let out = handle_game_update(&ps);
    let addrs: Vec<&str> = out.iter().map(|o| o.address.as_str()).collect();
    assert_eq!(addrs, vec!["1", "2"]);
    assert!(out.iter().all(|o| o.reply == Reply::Relay));
    assert!(send_wait_for_players_message(&Players::new()).is_empty());
}
