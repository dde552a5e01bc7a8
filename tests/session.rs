use openssl::pkey::Private;
use openssl::rsa::Padding;
use openssl::rsa::Rsa;
use rift::cipher::CipherStream;
use rift::codec::decode_frame;
use rift::codec::encode_frame;
use rift::codec::read_string;
use rift::codec::write_long;
use rift::codec::write_string;
use rift::codec::write_varint;
use rift::config::ProxyConfig;
use rift::config::ServerConfig;
use rift::keys::public_key_der;
use rift::packet::handshake;
use rift::packet::login::EncryptionRequest;
use rift::packet::login::EncryptionResponse;
use rift::packet::login::Start;
use rift::packet::receive;
use rift::packet::write_packet;
use rift::packet::Chat;
use rift::player::Player;
use rift::codec::WireError;
use rift::protocol::session::is_throttled;
use rift::protocol::session::text_contains;
use rift::protocol::session::Action;
use rift::protocol::session::ConnectionState;
use rift::protocol::session::Phase;
use rift::protocol::session::Session;
use rift::util::hash::server_hash;

fn handshake_bytes(next_state: i32) -> Vec<u8> {
    write_packet(&handshake::Packet {
        version: 754,
        address: String::from("example.com"),
        port: 25565,
        next_state,
    })
}

fn key() -> Rsa<Private> {
    Rsa::generate(1024).unwrap()
}

fn run_client(s: &mut Session, config: &ProxyConfig, key: &Rsa<Private>) -> Vec<Action> {
    let players: Vec<Player> = Vec::new();
    let mut all = Vec::new();
    while s.client_frame_ready() {
        let before = s.phase;
        let actions = s.step_client(config, &players, key);
        let stop = actions.iter().any(|a| matches!(a, Action::Close | Action::Authenticate { .. }));
        all.extend(actions);
        if stop || s.phase == before {
            break;
        }
    }
    all
}

fn sent_to_client(actions: &[Action]) -> Vec<Vec<u8>> {
    actions
        .iter()
        .filter_map(|a| match a {
            Action::SendToClient(b) => Some(b.clone()),
            _ => None,
        })
        .collect()
}

#[test]
fn server_list_ping_happy_path() {
    let k = key();
    let config = ProxyConfig::default();
    let mut s = Session::new(public_key_der(&k).unwrap(), vec![1, 2, 3, 4]);
    let mut input = vec![0x12, 0x00];
    write_varint(&mut input, 754);
    write_string(&mut input, "example.com");
    input.extend_from_slice(&[0x63, 0xDD]);
    write_varint(&mut input, 1);
    input.extend_from_slice(&[0x01, 0x00]);
    assert_eq!(input, {
        let mut e = handshake_bytes(1);
        e.extend_from_slice(&[0x01, 0x00]);
        e
    });
    s.feed_client(&input);
    let actions = run_client(&mut s, &config, &k);
    assert_eq!(s.phase, Phase::AwaitPing);
    let sent = sent_to_client(&actions);
    assert_eq!(sent.len(), 1);
    let (frame, _) = decode_frame(&sent[0], 0).unwrap();
    assert_eq!(frame.id, 0);
    let (json, _) = read_string(&frame.payload, 0).unwrap();
    assert!(json.contains("\"version\":{\"name\":\"Rift\",\"protocol\":754}"));
    assert!(json.contains("\"players\":{\"max\":20,\"online\":0,\"sample\":[]}"));
    assert!(json.contains("\"description\":{\"text\":\"\u{a7}3Enter the rift.\"}"));
    assert!(!json.contains("favicon"));

    let mut ping = vec![0x09, 0x01];
    write_long(&mut ping, 0x1122334455667788);
    s.feed_client(&ping);
    let actions = run_client(&mut s, &config, &k);
    assert_eq!(sent_to_client(&actions), vec![ping.clone()]);
    assert!(matches!(actions.last(), Some(Action::Close)));
    assert_eq!(s.phase, Phase::Closed);
}

#[test]
fn handshake_split_across_reads_waits() {
    let k = key();
    let config = ProxyConfig::default();
    let mut s = Session::new(vec![], vec![1]);
    let bytes = handshake_bytes(1);
    s.feed_client(&bytes[..5]);
    assert!(!s.client_frame_ready());
    let players: Vec<Player> = Vec::new();
    assert!(s.step_client(&config, &players, &k).is_empty());
    assert_eq!(s.phase, Phase::AwaitHandshake);
    s.feed_client(&bytes[5..]);
    assert!(s.step_client(&config, &players, &k).is_empty());
    assert_eq!(s.phase, Phase::AwaitStatusRequest);
}

#[test]
fn unknown_next_state_closes_silently() {
    let k = key();
    let config = ProxyConfig::default();
    for ns in [0, 3, -1] {
        let mut s = Session::new(vec![], vec![1]);
        s.feed_client(&handshake_bytes(ns));
        let actions = run_client(&mut s, &config, &k);
        assert_eq!(actions.len(), 1);
        assert!(matches!(actions[0], Action::Close));
        assert_eq!(s.phase, Phase::Closed);
    }
}

#[test]
fn garbage_first_packet_closes() {
    let k = key();
    let config = ProxyConfig::default();
    let mut s = Session::new(vec![], vec![1]);
    s.feed_client(&encode_frame(5, &[1, 2]));
    let actions = run_client(&mut s, &config, &k);
    assert!(matches!(actions[..], [Action::Close]));
}

fn encrypt_for(k: &Rsa<Private>, data: &[u8]) -> Vec<u8> {
    let mut buf = vec![0u8; k.size() as usize];
    let n = k.public_encrypt(data, &mut buf, Padding::PKCS1).unwrap();
    buf.truncate(n);
    buf
}

fn login_until_request(s: &mut Session, config: &ProxyConfig, k: &Rsa<Private>) -> EncryptionRequest {
    let mut input = handshake_bytes(2);
    input.extend(write_packet(&Start { name: String::from("Alice") }));
    s.feed_client(&input);
    let actions = run_client(s, config, k);
    assert_eq!(s.phase, Phase::AwaitEncryptionResponse);
    let sent = sent_to_client(&actions);
    assert_eq!(sent.len(), 1);
    receive::<EncryptionRequest>(&sent[0], 0).unwrap().0
}

fn single_default(id: &str) -> ProxyConfig {
    let mut c = ProxyConfig::default();
    c.servers = vec![ServerConfig { id: String::from(id), address: String::from("localhost:25565"), default: true }];
    c
}

#[test]
fn login_with_encryption_happy_path() {
    let k = key();
    let der = public_key_der(&k).unwrap();
    let config = single_default("lobby");
    let token = vec![0xDE, 0xAD, 0xBE, 0xEF];
    let mut s = Session::new(der.clone(), token.clone());
    let request = login_until_request(&mut s, &config, &k);
    assert_eq!(request.id, "");
    assert_eq!(request.public_key, der);
    assert_eq!(request.token, token);

    let secret = [0x11u8; 16];
    let response = EncryptionResponse { secret: encrypt_for(&k, &secret), token: encrypt_for(&k, &token) };
    s.feed_client(&write_packet(&response));
    let actions = run_client(&mut s, &config, &k);
    assert_eq!(s.phase, Phase::AwaitAuthentication);
    match &actions[..] {
        [Action::Authenticate { name, server_hash: hash }] => {
            assert_eq!(name, "Alice");
            assert_eq!(hash, &server_hash("", &secret, &der));
        },
        other => panic!("unexpected actions {:?}", other),
    }

    let actions = s.on_authenticated(&config, Some(Player::new(7, "Alice")));
    match &actions[..] {
        [Action::ConnectBackend { id, address }] => {
            assert_eq!(id, "lobby");
            assert_eq!(address, "localhost:25565");
        },
        other => panic!("unexpected actions {:?}", other),
    }

    let actions = s.on_backend_connected(true);
    let mut replay = handshake_bytes(2);
    replay.extend(write_packet(&Start { name: String::from("Alice") }));
    match &actions[..] {
        [Action::SendToBackend(bytes)] => assert_eq!(bytes, &replay),
        other => panic!("unexpected actions {:?}", other),
    }
    assert_eq!(s.phase, Phase::AwaitBackendReply);

    let mut success = vec![];
    write_string(&mut success, "069a79f4-44e9-4726-a5be-fca90e38aaf5");
    write_string(&mut success, "Alice");
    let mut from_backend = encode_frame(2, &success);
    from_backend.extend_from_slice(&[0x03, 0x26, 0x00, 0x01]);
    s.feed_backend(&from_backend[..3]);
    assert!(s.step_backend().is_empty());
    s.feed_backend(&from_backend[3..]);
    let actions = s.step_backend();
    assert_eq!(s.phase, Phase::Play);
    let sent = sent_to_client(&actions);
    assert_eq!(sent.len(), 1);
    let mut client_side = CipherStream::new(&secret);
    assert_eq!(client_side.decrypt(&sent[0]), from_backend);
    assert!(matches!(actions.last(), Some(Action::Forward)));

    let (mut to_client, mut from_client) = s.take_ciphers().unwrap();
    let mut client_out = CipherStream::new(&secret);
    let msg = client_out.encrypt(b"play bytes");
    assert_eq!(from_client.decrypt(&msg), b"play bytes".to_vec());
    let down = to_client.encrypt(b"more");
    assert_eq!(client_side.decrypt(&down), b"more".to_vec());
}

#[test]
fn token_mismatch_closes_without_reply() {
    let k = key();
    let config = single_default("lobby");
    let token = vec![1, 2, 3, 4];
    let mut s = Session::new(public_key_der(&k).unwrap(), token.clone());
    login_until_request(&mut s, &config, &k);
    let bad = vec![1, 2, 3, 5];
    let response = EncryptionResponse { secret: encrypt_for(&k, &[0x22; 16]), token: encrypt_for(&k, &bad) };
    s.feed_client(&write_packet(&response));
    let actions = run_client(&mut s, &config, &k);
    assert!(matches!(actions[..], [Action::Close]));
    assert_eq!(s.phase, Phase::Closed);
}

#[test]
fn token_mismatch_in_key_exchange() {
    let mut s = Session::new(vec![], vec![1, 2, 3, 4]);
    s.phase = Phase::AwaitEncryptionResponse;
    s.handshake = Some(handshake::Packet { version: 754, address: String::new(), port: 1, next_state: 2 });
    s.name = Some(String::from("Alice"));
    let actions = s.complete_key_exchange(Some(vec![1, 2, 3, 0]), Some(vec![0; 16]));
    assert!(matches!(actions[..], [Action::Close]));
    assert_eq!(s.phase, Phase::Closed);
}

#[test]
fn undecryptable_exchange_closes() {
    let k = key();
    let config = single_default("lobby");
    let mut s = Session::new(public_key_der(&k).unwrap(), vec![1, 2, 3, 4]);
    login_until_request(&mut s, &config, &k);
    let response = EncryptionResponse { secret: vec![0; 128], token: vec![0; 128] };
    s.feed_client(&write_packet(&response));
    let actions = run_client(&mut s, &config, &k);
    assert!(matches!(actions[..], [Action::Close]));
}

fn authenticated_session(k: &Rsa<Private>, config: &ProxyConfig, secret: [u8; 16]) -> Session {
    let token = vec![5, 6, 7, 8];
    let mut s = Session::new(public_key_der(k).unwrap(), token.clone());
    login_until_request(&mut s, config, k);
    let response = EncryptionResponse { secret: encrypt_for(k, &secret), token: encrypt_for(k, &token) };
    s.feed_client(&write_packet(&response));
    run_client(&mut s, config, k);
    assert_eq!(s.phase, Phase::AwaitAuthentication);
    s
}

fn disconnect_json(frame: &[u8]) -> String {
    let (f, _) = decode_frame(frame, 0).unwrap();
    assert_eq!(f.id, 0);
    read_string(&f.payload, 0).unwrap().0
}

#[test]
fn no_default_server_disconnects() {
    let k = key();
    let mut config = ProxyConfig::default();
    config.servers = vec![ServerConfig { id: String::from("a"), address: String::from("a:1"), default: false }];
    let secret = [0x33u8; 16];
    let mut s = authenticated_session(&k, &config, secret);
    let actions = s.on_authenticated(&config, Some(Player::new(1, "Alice")));
    let sent = sent_to_client(&actions);
    assert_eq!(sent.len(), 1);
    let plain = CipherStream::new(&secret).decrypt(&sent[0]);
    assert_eq!(disconnect_json(&plain), "{\"text\":\"\u{a7}cWe don't know where to send you!\"}");
    assert!(matches!(actions.last(), Some(Action::Close)));
    assert_eq!(s.phase, Phase::Closed);
}

#[test]
fn failed_authentication_disconnects() {
    let k = key();
    let config = single_default("lobby");
    let secret = [0x44u8; 16];
    let mut s = authenticated_session(&k, &config, secret);
    let actions = s.on_authenticated(&config, None);
    let sent = sent_to_client(&actions);
    let plain = CipherStream::new(&secret).decrypt(&sent[0]);
    assert_eq!(disconnect_json(&plain), "{\"text\":\"\u{a7}cAuthentication failed.\"}");
    assert_eq!(s.phase, Phase::Closed);
}

#[test]
fn unreachable_backend_disconnects() {
    let k = key();
    let config = single_default("lobby");
    let secret = [0x55u8; 16];
    let mut s = authenticated_session(&k, &config, secret);
    s.on_authenticated(&config, Some(Player::new(1, "Alice")));
    let actions = s.on_backend_connected(false);
    let sent = sent_to_client(&actions);
    let plain = CipherStream::new(&secret).decrypt(&sent[0]);
    assert_eq!(disconnect_json(&plain), "{\"text\":\"\u{a7}cFailed to connect to lobby!\"}");
    assert_eq!(s.phase, Phase::Closed);
}

#[test]
fn backend_refusal_forwarded_verbatim() {
    let k = key();
    let config = single_default("lobby");
    let secret = [0x66u8; 16];
    let mut s = authenticated_session(&k, &config, secret);
    s.on_authenticated(&config, Some(Player::new(1, "Alice")));
    s.on_backend_connected(true);
    let reason = "{\"translate\":\"multiplayer.disconnect.server_full_throttled\",\"with\":[]}";
    let mut payload = Vec::new();
    write_string(&mut payload, reason);
    let frame = encode_frame(0, &payload);
    s.feed_backend(&frame);
    let actions = s.step_backend();
    let sent = sent_to_client(&actions);
    assert_eq!(sent.len(), 1);
    assert_eq!(CipherStream::new(&secret).decrypt(&sent[0]), frame);
    match &actions[1] {
        Action::Refused { backend, reason: r } => {
            assert_eq!(backend, "lobby");
            assert_eq!(r, reason);
        },
        other => panic!("unexpected action {:?}", other),
    }
    assert!(matches!(actions.last(), Some(Action::Close)));
    assert_eq!(s.phase, Phase::Closed);
    let chat = Chat { text: None, translate: Some(String::from("x")) };
    assert_eq!(chat.to_json(), "{\"translate\":\"x\"}");
}

#[test]
fn unexpected_backend_packet_closes() {
    let k = key();
    let config = single_default("lobby");
    let mut s = authenticated_session(&k, &config, [0x77u8; 16]);
    s.on_authenticated(&config, Some(Player::new(1, "Alice")));
    s.on_backend_connected(true);
    s.feed_backend(&encode_frame(3, &[1]));
    let actions = s.step_backend();
    assert!(matches!(actions[..], [Action::Close]));
}

#[test]
fn status_client_cannot_reach_login() {
    let k = key();
    let config = ProxyConfig::default();
    let mut s = Session::new(vec![], vec![1]);
    s.feed_client(&handshake_bytes(1));
    run_client(&mut s, &config, &k);
    assert_eq!(s.phase, Phase::AwaitStatusRequest);
    let response = EncryptionResponse { secret: vec![1; 128], token: vec![2; 128] };
    s.feed_client(&write_packet(&response));
    let actions = run_client(&mut s, &config, &k);
    assert!(matches!(actions[..], [Action::Close]));
}

#[test]
fn coarse_states() {
    let k = key();
    let config = ProxyConfig::default();
    let mut s = Session::new(vec![], vec![1]);
    assert_eq!(s.state(), ConnectionState::Handshaking);
    s.feed_client(&handshake_bytes(1));
    run_client(&mut s, &config, &k);
    assert_eq!(s.state(), ConnectionState::Status);
    let mut l = Session::new(vec![], vec![1]);
    l.feed_client(&handshake_bytes(2));
    run_client(&mut l, &config, &k);
    assert_eq!(l.state(), ConnectionState::Login);
}

fn handshake_with_address(address: &str) -> Vec<u8> {
    write_packet(&handshake::Packet {
        version: 754,
        address: String::from(address),
        port: 25565,
        next_state: 2,
    })
}

#[test]
fn handshake_address_limit() {
    let k = key();
    let config = ProxyConfig::default();
    let mut ok = Session::new(vec![], vec![1]);
    ok.feed_client(&handshake_with_address(&"a".repeat(255)));
    assert!(run_client(&mut ok, &config, &k).is_empty());
    assert_eq!(ok.phase, Phase::AwaitLoginStart);
    let mut long = Session::new(vec![], vec![1]);
    long.feed_client(&handshake_with_address(&"a".repeat(256)));
    let actions = run_client(&mut long, &config, &k);
    assert!(matches!(actions[..], [Action::Close]));
    assert_eq!(long.phase, Phase::Closed);
}

#[test]
fn throttle_detection() {
    assert!(is_throttled("Connection throttled! Please wait before reconnecting."));
    assert!(!is_throttled("multiplayer.disconnect.server_full_throttled"));
    assert!(!is_throttled(""));
    assert!(text_contains("abcabd", "abd"));
    assert!(text_contains("abc", ""));
    assert!(!text_contains("ab", "abc"));
}

#[test]
fn secret_of_wrong_length_is_refused() {
    let k = key();
    let good = EncryptionResponse { secret: encrypt_for(&k, &[1u8; 16]), token: encrypt_for(&k, &[2u8; 4]) };
    assert_eq!(good.decrypt_secret(&k), Some(vec![1u8; 16]));
    assert_eq!(good.decrypt_token(&k), Some(vec![2u8; 4]));
    let long = EncryptionResponse { secret: encrypt_for(&k, &[1u8; 17]), token: vec![] };
    assert_eq!(long.decrypt_secret(&k), None);
    let short = EncryptionResponse { secret: encrypt_for(&k, &[1u8; 15]), token: vec![] };
    assert_eq!(short.decrypt_secret(&k), None);
}

#[test]
fn invalid_handshake_is_rejected_by_the_decoder() {
    for ns in [0, 3] {
        let bytes = handshake_bytes(ns);
        assert!(matches!(receive::<handshake::Packet>(&bytes, 0), Err(WireError::InvalidHandshake)));
    }
    let long = handshake_with_address(&"a".repeat(256));
    assert!(matches!(receive::<handshake::Packet>(&long, 0), Err(WireError::InvalidHandshake)));
}
