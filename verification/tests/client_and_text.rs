use multiplayer_fps::client::handlers::Notice;
use multiplayer_fps::client::udp::{process_game_message, ClientEvent, LoopError, ReceiveLoop, MAX_RECEIVE_ERRORS};
use multiplayer_fps::common::constant::{ENEMY_PATH, ENEMY_URL, PLAYER_PATH, PLAYER_URL};
use multiplayer_fps::common::protocol::{
    send_disconnect_message, send_new_connection, send_ready_msg, GameMessage, MessageContent,
    MessageType,
};
use multiplayer_fps::common::sync::{handle_game_message, NetworkRoute};
use multiplayer_fps::graphics::resources::PlayerCountState;
use multiplayer_fps::graphics::states::GameState;
use multiplayer_fps::graphics::systems::waitting_page::check_player_count;
use multiplayer_fps::server::udp::{get_min_players_from_user, run_socket, SocketRole};
use multiplayer_fps::utils::decimal::{parse_unsigned_u64, to_decimal};
use multiplayer_fps::utils::logger::{display_error_with_type, ErrorType};
use multiplayer_fps::utils::server_utils::{get_server_address, server_address_text, ServerAddress};
use multiplayer_fps::utils::utils::{download_models, get_user_choice, model_path, model_url, trim_text, ModelAsset};

fn msg(kind: MessageType, content: MessageContent) -> GameMessage {
    GameMessage { message_type: kind, sender: "server".to_string(), content }
}

#[test]
fn decimal_writing() {
    assert_eq!(to_decimal(0), "0");
    assert_eq!(to_decimal(7), "7");
    assert_eq!(to_decimal(1234), "1234");
    assert_eq!(to_decimal(u64::MAX), "18446744073709551615");
}

#[test]
fn unsigned_parsing() {
    let max = u32::MAX as u64;
    assert_eq!(parse_unsigned_u64("42", max), Some(42));
    assert_eq!(parse_unsigned_u64("+7", max), Some(7));
    assert_eq!(parse_unsigned_u64("007", max), Some(7));
    assert_eq!(parse_unsigned_u64("4294967295", max), Some(4294967295));
    assert_eq!(parse_unsigned_u64("4294967296", max), None);
    assert_eq!(parse_unsigned_u64("-1", max), None);
    assert_eq!(parse_unsigned_u64("", max), None);
    assert_eq!(parse_unsigned_u64("+", max), None);
    assert_eq!(parse_unsigned_u64("1 2", max), None);
    assert_eq!(parse_unsigned_u64("99999999999999999999999", u64::MAX), None);
}

#[test]
fn parsing_reads_back_decimal_writing() {
    for n in [0u64, 1, 9, 10, 255, 8080, 4294967295, u64::MAX] {
        assert_eq!(parse_unsigned_u64(&to_decimal(n), u64::MAX), Some(n));
        assert_eq!(parse_unsigned_u64(&to_decimal(n), u64::MAX), n.to_string().parse::<u64>().ok());
    }
}

#[test]
fn trimming() {
    assert_eq!(trim_text("  3 \n"), "3");
    assert_eq!(trim_text("\u{3000}a b\u{A0}\t"), "a b");
    assert_eq!(trim_text(" \r\n "), "");
    assert_eq!(trim_text(""), "");
    assert_eq!(trim_text("x"), "x");
    let once = trim_text(" \u{2003}mixed\u{85} ");
    assert_eq!(trim_text(&once), once);
    assert_eq!(once, " \u{2003}mixed\u{85} ".trim());
}

#[test]
fn menu_choice_and_role() {
    assert_eq!(get_user_choice("1"), Some(1));
    assert_eq!(get_user_choice("2"), Some(2));
    assert_eq!(get_user_choice("two"), None);
    assert_eq!(run_socket(get_user_choice("1")), SocketRole::Server);
    assert_eq!(run_socket(get_user_choice("2")), SocketRole::Client);
    assert_eq!(run_socket(Some(3)), SocketRole::Invalid);
    assert_eq!(run_socket(None), SocketRole::Invalid);
}

#[test]
fn minimum_players_from_the_console() {
    assert_eq!(get_min_players_from_user(" 4\n").get_min_players(), 4);
    assert_eq!(get_min_players_from_user("2").get_min_players(), 2);
    assert_eq!(get_min_players_from_user("1").get_min_players(), 2);
    assert_eq!(get_min_players_from_user("lots").get_min_players(), 2);
    assert_eq!(get_min_players_from_user("").get_min_players(), 2);
}

#[test]
fn downloads_only_missing_models() {
    assert_eq!(download_models(true, true), vec![]);
    assert_eq!(download_models(false, true), vec![ModelAsset::Player]);
    assert_eq!(download_models(true, false), vec![ModelAsset::Enemy]);
    assert_eq!(download_models(false, false), vec![ModelAsset::Player, ModelAsset::Enemy]);
    assert_eq!(model_url(ModelAsset::Player), PLAYER_URL);
    assert_eq!(model_path(ModelAsset::Enemy), ENEMY_PATH);
    assert_eq!(model_url(ModelAsset::Enemy), ENEMY_URL);
    assert_eq!(model_path(ModelAsset::Player), PLAYER_PATH);
}

#[test]
fn error_lines_carry_their_tag() {
    assert_eq!(display_error_with_type(ErrorType::Serialization, "x"), "[Serialization Error] x");
    assert_eq!(display_error_with_type(ErrorType::Deserialization, "y"), "[Deserialization Error] y");
    assert_eq!(display_error_with_type(ErrorType::Network, "z"), "[Network Error] z");
    assert_eq!(display_error_with_type(ErrorType::Unknown, ""), "[Unknown Error] ");
}

#[test]
fn server_address_is_recorded() {
    assert_eq!(server_address_text([192, 168, 1, 10], 8080), "192.168.1.10:8080");
    assert_eq!(server_address_text([0, 0, 0, 0], 0), "0.0.0.0:0");
    let mut rec = ServerAddress::new();
    assert_eq!(get_server_address(&rec), None);
    rec.record(server_address_text([10, 0, 0, 255], 8080));
    assert_eq!(get_server_address(&rec), Some("10.0.0.255:8080".to_string()));
}

#[test]
fn client_messages() {
    let m = send_disconnect_message("ann", "You press quit");
    assert_eq!(m.message_type, MessageType::Disconnect);
    assert_eq!(m.sender, "ann");
    assert_eq!(m.content, MessageContent::Disconnect { reason: "You press quit".to_string() });
    let m = send_ready_msg("ann");
    assert_eq!(m.content, MessageContent::PlayerAction { ready: true, sequence_number: 0 });
    let m = send_new_connection("ann");
    assert_eq!(m.message_type, MessageType::NewConnection);
    assert_eq!(m.content, MessageContent::NewConnection { name: "ann".to_string() });
}

#[test]
fn client_reactions() {
    let mut st = PlayerCountState::new();
    let s = process_game_message(
        &msg(MessageType::NewConnection, MessageContent::NewConnection { name: "bo".to_string() }),
        &mut st,
    );
    assert_eq!(s.notice, Some(Notice::Joined { name: "bo".to_string() }));
    assert!(!s.stop && !s.launch_game);
    let s = process_game_message(
        &msg(MessageType::WaitForPlayers, MessageContent::WaitForPlayers { msg: "wait".to_string() }),
        &mut st,
    );
    assert!(s.launch_game);
    assert!(!st.has_enough_players);
    let s = process_game_message(
        &msg(MessageType::StartGame, MessageContent::StartGame { msg: "go".to_string() }),
        &mut st,
    );
    assert!(s.launch_game);
    assert!(!st.has_enough_players);
    process_game_message(
        &msg(MessageType::StartGame, MessageContent::StartGame { msg: "start".to_string() }),
        &mut st,
    );
    assert!(st.has_enough_players);
    let s = process_game_message(
        &msg(MessageType::ServerInfo, MessageContent::NewConnection { name: "x".to_string() }),
        &mut st,
    );
    assert_eq!(s.notice, Some(Notice::InvalidContent { kind: MessageType::ServerInfo }));
    let s = process_game_message(
        &msg(MessageType::Disconnect, MessageContent::Disconnect { reason: "kicked".to_string() }),
        &mut st,
    );
    assert!(s.stop);
    assert_eq!(s.notice, Some(Notice::Disconnected { reason: "kicked".to_string() }));
    let s = process_game_message(&msg(MessageType::GameUpdate, MessageContent::GameUpdate { sequence_number: 3 }), &mut st);
    assert_eq!(s.notice, None);
    // a disconnection with another body only warns, and still ends the loop
    let s = process_game_message(&msg(MessageType::Disconnect, MessageContent::ServerInfo { server_status: "x".to_string() }), &mut st);
    assert!(s.stop);
    assert_eq!(s.notice, Some(Notice::MisplacedDisconnect));
}

#[test]
fn five_failed_receives_in_a_row_disconnect() {
    let mut st = PlayerCountState::new();
    let mut l = ReceiveLoop::new();
    for k in 1..MAX_RECEIVE_ERRORS {
        let r = l.step(ClientEvent::ReceiveFailed, &mut st);
        assert_eq!(r.errors, vec![LoopError::ReceiveFailed]);
        assert!(!r.step.stop);
        assert_eq!(l.error_count(), k);
    }
    // a received message resets the count
    let r = l.step(
        ClientEvent::Received(msg(MessageType::GameUpdate, MessageContent::GameUpdate { sequence_number: 1 })),
        &mut st,
    );
    assert!(r.errors.is_empty());
    assert_eq!(l.error_count(), 0);
    let r = l.step(ClientEvent::Undecodable, &mut st);
    assert_eq!(r.errors, vec![LoopError::DecodeFailed]);
    assert_eq!(l.error_count(), 0);
    for _ in 1..MAX_RECEIVE_ERRORS {
        l.step(ClientEvent::ReceiveFailed, &mut st);
    }
    let r = l.step(ClientEvent::ReceiveFailed, &mut st);
    assert!(r.step.stop);
    assert_eq!(r.errors, vec![LoopError::ReceiveFailed, LoopError::TooManyErrors]);
    assert_eq!(r.step.notice, Some(Notice::Disconnected { reason: "Failed to receive data".to_string() }));
}

#[test]
fn game_window_routes_polled_messages() {
    let mut st = PlayerCountState::new();
    let r = handle_game_message(&msg(MessageType::GameUpdate, MessageContent::GameUpdate { sequence_number: 1 }), &mut st);
    assert_eq!(r, NetworkRoute::Queue);
    let r = handle_game_message(&msg(MessageType::StartGame, MessageContent::StartGame { msg: "go".to_string() }), &mut st);
    assert_eq!(r, NetworkRoute::Show { msg: "go".to_string() });
    assert!(st.has_enough_players);
    let r = handle_game_message(&msg(MessageType::WaitForPlayers, MessageContent::WaitForPlayers { msg: "w".to_string() }), &mut st);
    assert_eq!(r, NetworkRoute::Show { msg: "w".to_string() });
    assert!(!st.has_enough_players);
    let r = handle_game_message(&msg(MessageType::ServerInfo, MessageContent::ServerInfo { server_status: "s".to_string() }), &mut st);
    assert_eq!(r, NetworkRoute::Ignore);
}

#[test]
fn start_message_opens_the_game_and_wait_keeps_waiting() {
    let start = msg(MessageType::StartGame, MessageContent::StartGame { msg: "start".to_string() });
    let wait = msg(MessageType::WaitForPlayers, MessageContent::WaitForPlayers { msg: "wait".to_string() });
    // through the connection loop
    let mut st = PlayerCountState::new();
    process_game_message(&start, &mut st);
    assert_eq!(check_player_count(&st), Some(GameState::Game));
    process_game_message(&wait, &mut st);
    assert_eq!(check_player_count(&st), None);
    // through the game window
    let mut st = PlayerCountState::new();
    handle_game_message(&start, &mut st);
    assert_eq!(check_player_count(&st), Some(GameState::Game));
    handle_game_message(&wait, &mut st);
    assert_eq!(check_player_count(&st), None);
}
