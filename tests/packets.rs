use rift::cipher::CipherStream;
use rift::codec::encode_frame;
use rift::codec::WireError;
use rift::packet::handshake;
use rift::packet::handshake::Description;
use rift::packet::handshake::Ping;
use rift::packet::handshake::Players;
use rift::packet::handshake::Request;
use rift::packet::handshake::Response;
use rift::packet::handshake::Version;
use rift::packet::login::Disconnect;
use rift::packet::login::EncryptionRequest;
use rift::packet::login::EncryptionResponse;
use rift::packet::login::Start;
use rift::packet::login::Success;
use rift::packet::receive;
use rift::packet::receive_encrypted;
use rift::packet::write_packet;
use rift::packet::write_packet_encrypted;
use rift::packet::Chat;
use rift::packet::Packet;
use rift::player::Player;

#[test]
fn handshake_round_trip() {
    let p = handshake::Packet {
        version: 754,
        address: String::from("example.com"),
        port: 25565,
        next_state: 1,
    };
    let bytes = write_packet(&p);
    let mut expected = vec![0x12, 0x00, 0xF2, 0x05, 0x0B];
    expected.extend_from_slice(b"example.com");
    expected.extend_from_slice(&[0x63, 0xDD, 0x01]);
    assert_eq!(bytes, expected);
    let (back, next) = receive::<handshake::Packet>(&bytes, 0).unwrap();
    assert_eq!(back.version, 754);
    assert_eq!(back.address, "example.com");
    assert_eq!(back.port, 25565);
    assert_eq!(back.next_state, 1);
    assert_eq!(next, bytes.len());
}

#[test]
fn request_and_ping_round_trip() {
    let bytes = write_packet(&Request);
    assert_eq!(bytes, vec![0x01, 0x00]);
    assert!(receive::<Request>(&bytes, 0).is_ok());
    let ping = Ping { payload: 0x1122334455667788 };
    let bytes = write_packet(&ping);
    assert_eq!(bytes, vec![0x09, 0x01, 0x11, 0x22, 0x33, 0x44, 0x55, 0x66, 0x77, 0x88]);
    assert_eq!(receive::<Ping>(&bytes, 0).unwrap().0.payload, 0x1122334455667788);
}

#[test]
fn login_packets_round_trip() {
    let start = Start { name: String::from("Alice") };
    let bytes = write_packet(&start);
    assert_eq!(receive::<Start>(&bytes, 0).unwrap().0.name, "Alice");

    let req = EncryptionRequest { id: String::new(), public_key: vec![1, 2, 3], token: vec![9, 8, 7, 6] };
    let bytes = write_packet(&req);
    assert_eq!(bytes, vec![0x0B, 0x01, 0x00, 0x03, 1, 2, 3, 0x04, 9, 8, 7, 6]);
    let back = receive::<EncryptionRequest>(&bytes, 0).unwrap().0;
    assert_eq!(back.id, "");
    assert_eq!(back.public_key, vec![1, 2, 3]);
    assert_eq!(back.token, vec![9, 8, 7, 6]);

    let resp = EncryptionResponse { secret: vec![5; 128], token: vec![6; 128] };
    let bytes = write_packet(&resp);
    let back = receive::<EncryptionResponse>(&bytes, 0).unwrap().0;
    assert_eq!(back.secret, vec![5; 128]);
    assert_eq!(back.token, vec![6; 128]);

    let success = Success { uuid: String::from("069a79f4-44e9-4726-a5be-fca90e38aaf5"), name: String::from("Notch") };
    let bytes = write_packet(&success);
    let back = receive::<Success>(&bytes, 0).unwrap().0;
    assert_eq!(back.uuid, "069a79f4-44e9-4726-a5be-fca90e38aaf5");
    assert_eq!(back.name, "Notch");
}

#[test]
fn packet_ids() {
    assert_eq!(Start { name: String::new() }.get_id(), 0);
    assert_eq!(Ping { payload: 0 }.get_id(), 1);
    assert_eq!(Success { uuid: String::new(), name: String::new() }.get_id(), 2);
    assert_eq!(Disconnect { chat: Chat::new("x") }.get_id(), 0);
}

#[test]
fn wrong_id_is_unexpected() {
    let bytes = encode_frame(1, &[]);
    assert!(matches!(receive::<Request>(&bytes, 0), Err(WireError::UnexpectedPacket)));
    let bytes = write_packet(&Ping { payload: 3 });
    assert!(matches!(receive::<Start>(&bytes, 0), Err(WireError::UnexpectedPacket)));
}

#[test]
fn extra_bytes_in_frame_are_rejected() {
    let bytes = encode_frame(0, &[0x00]);
    assert!(matches!(receive::<Request>(&bytes, 0), Err(WireError::TrailingBytes)));
}

#[test]
fn chat_json_forms() {
    let chat = Chat::new("&cWe don't know where to send you!");
    assert_eq!(chat.text.as_deref(), Some("\u{a7}cWe don't know where to send you!"));
    assert_eq!(chat.to_json(), "{\"text\":\"\u{a7}cWe don't know where to send you!\"}");
    let t = Chat { text: None, translate: Some(String::from("multiplayer.disconnect.server_full")) };
    assert_eq!(t.to_json(), "{\"translate\":\"multiplayer.disconnect.server_full\"}");
    let both = Chat { text: Some(String::from("a\"b\\c\n")), translate: Some(String::from("k")) };
    assert_eq!(both.to_json(), "{\"text\":\"a\\\"b\\\\c\\n\",\"translate\":\"k\"}");
    let none = Chat { text: None, translate: None };
    assert_eq!(none.to_json(), "{}");
    let control = Chat { text: Some(String::from("\u{1}")), translate: None };
    assert_eq!(control.to_json(), "{\"text\":\"\\u0001\"}");
}

#[test]
fn disconnect_wire_form() {
    let d = Disconnect { chat: Chat::new("hi") };
    assert!(d.fits());
    let bytes = write_packet(&d);
    let json = b"{\"text\":\"hi\"}";
    let mut expected = vec![(json.len() + 2) as u8, 0x00, json.len() as u8];
    expected.extend_from_slice(json);
    assert_eq!(bytes, expected);
}

fn response(favicon: Option<String>, sample: Vec<Player>) -> Response {
    Response {
        version: Version { name: String::from("Rift"), protocol: 754 },
        players: Players { max: 20, online: sample.len() as i32, sample },
        description: Description { text: String::from("\u{a7}3Enter the rift.") },
        favicon,
    }
}

#[test]
fn status_json_exact() {
    let r = response(None, Vec::new());
    assert_eq!(
        r.to_json(),
        "{\"version\":{\"name\":\"Rift\",\"protocol\":754},\"players\":{\"max\":20,\"online\":0,\"sample\":[]},\"description\":{\"text\":\"\u{a7}3Enter the rift.\"}}"
    );
    let with_icon = response(Some(String::from("data:image/png;base64,AAAA")), Vec::new());
    assert!(with_icon.to_json().ends_with(",\"favicon\":\"data:image/png;base64,AAAA\"}"));
}

#[test]
fn status_json_sample_players() {
    let players = vec![
        Player::new(0x069a79f444e94726a5befca90e38aaf5, "Notch"),
        Player::new(1, "jeb_"),
    ];
    let r = response(None, players);
    assert!(r.to_json().contains(
        "\"sample\":[{\"id\":\"069a79f4-44e9-4726-a5be-fca90e38aaf5\",\"name\":\"Notch\"},{\"id\":\"00000000-0000-0000-0000-000000000001\",\"name\":\"jeb_\"}]"
    ));
    assert!(r.to_json().contains("\"online\":2"));
}

#[test]
fn encrypted_packets_round_trip() {
    let secret = [3u8; 16];
    let mut out = CipherStream::new(&secret);
    let mut inn = CipherStream::new(&secret);
    let mut plain = Vec::new();
    let first = write_packet_encrypted(&Start { name: String::from("Alice") }, &mut out);
    assert_ne!(first, write_packet(&Start { name: String::from("Alice") }));
    assert_eq!(first.len(), write_packet(&Start { name: String::from("Alice") }).len());
    let second = write_packet_encrypted(&Ping { payload: 42 }, &mut out);
    let mut both = first.clone();
    both.extend_from_slice(&second);
    let start = receive_encrypted::<Start>(&both[..3], &mut inn, &mut plain);
    assert!(matches!(start, Err(WireError::Truncated)));
    assert_eq!(plain.len(), 3);
    let start = receive_encrypted::<Start>(&both[3..], &mut inn, &mut plain).unwrap();
    assert_eq!(start.name, "Alice");
    assert_eq!(plain, write_packet(&Ping { payload: 42 }));
    let ping = receive_encrypted::<Ping>(&[], &mut inn, &mut plain).unwrap();
    assert_eq!(ping.payload, 42);
    assert!(plain.is_empty());
}
