use fastlink::common::net::SocketAddr;
use fastlink::crypto::signature::KeyPair;
use fastlink::protocols::aztec::{
    AztecConnection, AztecError, AztecPacket, AztecServer, ObfuscationConfig, StealthMode, TrafficAnalyzer,
};
use fastlink::protocols::chat::{ChatError, ChatServerConfig, ChatState, MessageContent};
use fastlink::protocols::games::{GameRoom, GameServer, GamesError, RoomConfig};
use fastlink::protocols::server::{
    decide, frame_payload, new_session_id, response_err, response_ok, response_unknown, unframe, ClientSession, ServerAction, ServerConfig, ServerConnState,
    ServerError, ServerMessage, SessionTable, PROTOCOL_VERSION,
};
use fastlink::protocols::swift::{
    CongestionController, SwiftConfig, SwiftStreams, TransportMode, INITIAL_WINDOW, MAX_STREAMS,
};

#[test]
fn test_obfuscation_config_default() {
    let config = ObfuscationConfig::default();
    assert_eq!(config.mode, StealthMode::HttpsMimic);
}

#[test]
fn test_aztec_packet_creation() {
    let config = ObfuscationConfig::default();
    let packet = AztecPacket::new(0, vec![1, 2, 3], &config);
    assert_eq!(packet.sequence, 0);
    assert!(!packet.padding.is_empty());
}

#[test]
fn aztec_padding_within_bounds() {
    let config = ObfuscationConfig::default();
    for s in 0..20u64 {
        let packet = AztecPacket::new(s, vec![], &config);
        assert!(packet.padding.len() >= 16 && packet.padding.len() <= 256);
        assert_eq!(&packet.magic, b"AZTC");
    }
}

#[test]
fn aztec_server_creation() {
    let config = ObfuscationConfig::default();
    let addr = SocketAddr::v4(127, 0, 0, 1, 8080);
    let server = AztecServer::new(config, addr).unwrap();
    assert!(!server.public_key().is_empty());
    assert_eq!(server.listen_addr(), addr);
}

#[test]
fn aztec_connection_numbers_packets() {
    let kp = KeyPair::generate().unwrap();
    let mut conn = AztecConnection::new(
        ObfuscationConfig::default(),
        SocketAddr::v4(127, 0, 0, 1, 1),
        SocketAddr::v4(127, 0, 0, 1, 2),
        kp,
    );
    conn.set_peer_public_key(vec![7u8; 32]);
    let first = conn.prepare_send(vec![1, 2]).unwrap();
    let second = conn.prepare_send(vec![3]).unwrap();
    assert_eq!(first.payload, vec![1, 2]);
    assert_eq!((first.sequence, second.sequence), (0, 1));
    assert!(matches!(conn.process_recv(first), Err(AztecError::DecryptionFailed)));
}

#[test]
fn traffic_analyzer_records() {
    let mut t = TrafficAnalyzer::new();
    t.record_packet_at(100, 10);
    t.record_packet_at(200, 20);
    t.record_packet(50);
}

#[test]
fn chat_test_server_config_default() {
    let config = ChatServerConfig::default();
    assert!(config.enable_file_transfer);
}

#[test]
fn chat_rooms_and_messages() {
    let mut state = ChatState::new(ChatServerConfig::default());
    state.register_user("u1".to_string(), "alice".to_string(), "Alice".to_string());
    state.register_user("u2".to_string(), "bob".to_string(), "Bob".to_string());
    assert!(state.connect_user_at("u1", 5).is_ok());
    assert!(matches!(state.connect_user_at("nobody", 5), Err(ChatError::UserNotFound)));
    let room = state.create_room_at(
        "r1".to_string(),
        "u1".to_string(),
        "General".to_string(),
        None,
        false,
        vec![],
        10,
    );
    assert_eq!(room.members, vec!["u1".to_string()]);
    let m = state
        .send_message_at("u1".to_string(), "r1".to_string(), MessageContent::Text("hi".to_string()), None, "m1".to_string(), 11)
        .unwrap();
    assert_eq!(m.sender_name, "Alice");
    assert!(matches!(
        state.send_message_at("u2".to_string(), "r1".to_string(), MessageContent::Text("x".to_string()), None, "m2".to_string(), 12),
        Err(ChatError::NotAuthorized)
    ));
    assert!(matches!(
        state.send_message_at("u1".to_string(), "zz".to_string(), MessageContent::Text("x".to_string()), None, "m3".to_string(), 12),
        Err(ChatError::RoomNotFound)
    ));
    let history = state.get_history("r1", 10, None).unwrap();
    assert_eq!(history.len(), 1);
    assert_eq!(history[0].message_id, "m1");
    assert_eq!(state.get_room_members("r1").unwrap().len(), 1);
}

#[test]
fn test_room_config_default() {
    let config = RoomConfig::default();
    assert_eq!(config.max_players, 16);
    assert_eq!(config.tick_rate, 60);
}

#[test]
fn game_room_capacity() {
    let mut config = RoomConfig::default();
    config.max_players = 1;
    let mut room = GameRoom::new("room".to_string(), config);
    assert!(room.add_player_at("p1".to_string(), SocketAddr::v4(1, 2, 3, 4, 5), 0).is_ok());
    assert!(matches!(room.add_player_at("p2".to_string(), SocketAddr::v4(1, 2, 3, 4, 6), 0), Err(GamesError::InvalidState)));
    room.remove_player("p1");
    assert_eq!(room.player_count(), 0);
    let mut server = GameServer::new(RoomConfig::default());
    assert!(server.create_room("a".to_string()).is_ok());
    assert!(server.create_room("a".to_string()).is_err());
    assert_eq!(server.list_rooms(), vec!["a".to_string()]);
    assert!(server.get_room("a").is_none());
}

#[test]
fn server_test_server_config_default() {
    let config = ServerConfig::default();
    assert_eq!(config.max_connections, 1000);
}

#[test]
fn test_client_session() {
    let addr = SocketAddr::v4(127, 0, 0, 1, 12345);
    let session = ClientSession::new("test".to_string(), addr, vec![1, 2, 3]);
    assert_eq!(session.session_id, "test");
    assert_eq!(session.public_key, vec![1, 2, 3]);
    assert!(session.created_at > 0);
}

#[test]
fn server_frame_roundtrip_and_errors() {
    let framed = frame_payload(&[1, 2, 3]).unwrap();
    assert_eq!(&framed[..4], &[0x46, 0x4C, 0x53, 0x56]);
    assert_eq!(&framed[4..8], &PROTOCOL_VERSION.to_be_bytes());
    assert_eq!(&framed[8..12], &[0, 0, 0, 3]);
    assert_eq!(unframe(&framed).unwrap(), vec![1, 2, 3]);
    assert!(matches!(unframe(&framed[..11]), Err(ServerError::InvalidFrame)));
    assert!(matches!(unframe(&framed[..13]), Err(ServerError::InvalidFrame)));
    let mut huge = framed.clone();
    huge[8] = 0x7F;
    assert!(matches!(unframe(&huge), Err(ServerError::InvalidRequest)));
}

#[test]
fn server_protocol_decisions() {
    let hello = ServerMessage::Hello { version: PROTOCOL_VERSION, capabilities: vec!["auth".to_string()] };
    assert!(matches!(decide(&ServerConnState::WaitingHello, hello.clone()), ServerAction::SendChallenge));
    assert!(matches!(decide(&ServerConnState::WaitingAuth, hello), ServerAction::Reject));
    assert!(matches!(decide(&ServerConnState::WaitingAuth, ServerMessage::Heartbeat), ServerAction::AckHeartbeat));
    match response_ok(4, vec![9]) {
        ServerMessage::Response { request_id, success, data } => {
            assert_eq!((request_id, success, data), (4, true, vec![9]));
        },
        _ => panic!("Wrong message type"),
    }
}

#[test]
fn session_table_cleanup() {
    let mut table = SessionTable::new();
    let addr = SocketAddr::v4(127, 0, 0, 1, 1);
    table.insert(ClientSession::new_at("a".to_string(), addr, vec![], 0));
    table.insert(ClientSession::new_at("b".to_string(), addr, vec![], 0));
    table.touch("b", 5000);
    table.cleanup_at(4000, 3_000_000);
    assert_eq!(table.len(), 1);
    assert!(table.get("a").is_none());
    assert!(table.get("b").is_some());
}

#[test]
fn test_swift_config_default() {
    let config = SwiftConfig::default();
    assert_eq!(config.transport_mode, TransportMode::Reliable);
    assert_eq!(config.max_concurrent_streams, MAX_STREAMS);
}

#[test]
fn test_congestion_controller() {
    let mut cc = CongestionController::new();
    assert!(cc.can_send());
    cc.on_ack(1460);
    assert!(cc.cwnd > INITIAL_WINDOW);
    cc.on_loss();
    assert!(cc.cwnd < INITIAL_WINDOW * 2);
}

#[test]
fn congestion_controller_exact_steps() {
    let mut cc = CongestionController::new();
    cc.on_ack(0);
    assert_eq!(cc.cwnd, INITIAL_WINDOW + 1460);
    cc.on_loss();
    assert_eq!(cc.ssthresh, (INITIAL_WINDOW + 1460) / 2);
    assert_eq!(cc.cwnd, INITIAL_WINDOW);
    // Above the threshold the window grows by 1460 / cwnd, which is zero here.
    cc.on_ack(0);
    assert_eq!(cc.cwnd, INITIAL_WINDOW);
}

#[test]
fn swift_streams_open_until_limit() {
    let mut config = SwiftConfig::default();
    config.max_concurrent_streams = 2;
    let mut streams = SwiftStreams::new(config);
    assert!(streams.open_stream().is_ok());
    assert!(streams.open_stream().is_ok());
    assert!(streams.open_stream().is_err());
}

#[test]
fn chat_send_message_keeps_history() {
    let mut state = ChatState::new(ChatServerConfig::default());
    state.register_user("u1".to_string(), "alice".to_string(), "Alice".to_string());
    let room = state.create_room("u1".to_string(), "General".to_string(), None, false, vec![]).unwrap();
    let m = state.send_message("u1".to_string(), room.room_id.clone(), MessageContent::Text("hi".to_string()), None).unwrap();
    assert!(m.message_id.starts_with("msg_"));
    assert_eq!(m.message_id.len(), 4 + 32);
    let history = state.get_history(&room.room_id, 10, None).unwrap();
    assert_eq!(history.len(), 1);
    assert_eq!(history[0].message_id, m.message_id);
}

#[test]
fn game_add_player_joins_the_room() {
    let mut room = GameRoom::new("room".to_string(), RoomConfig::default());
    assert!(room.add_player("p1".to_string(), SocketAddr::v4(1, 2, 3, 4, 5)).is_ok());
    assert_eq!(room.player_count(), 1);
    assert!(room.add_player("p1".to_string(), SocketAddr::v4(1, 2, 3, 4, 6)).is_ok());
    assert_eq!(room.player_count(), 1);
}

#[test]
fn server_error_responses_carry_utf8_text() {
    match response_err(3, "échec") {
        ServerMessage::Response { request_id, success, data } => {
            assert_eq!(request_id, 3);
            assert!(!success);
            assert_eq!(data, "échec".as_bytes().to_vec());
        }
        _ => panic!("not a response"),
    }
    match response_unknown(4, "ping") {
        ServerMessage::Response { data, .. } => assert_eq!(data, b"Unknown method: ping".to_vec()),
        _ => panic!("not a response"),
    }
}

#[test]
fn session_ids_hold_a_v4_uuid() {
    let id = new_session_id();
    assert!(id.starts_with("session_"));
    let u = &id["session_".len()..];
    assert_eq!(u.len(), 32);
    assert!(u.chars().all(|c| c.is_ascii_digit() || ('a'..='f').contains(&c)));
    assert_eq!(u.as_bytes()[12], b'4');
    assert!(matches!(u.as_bytes()[16], b'8' | b'9' | b'a' | b'b'));
}
