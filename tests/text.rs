use rift::cipher::CipherStream;
use rift::config::ProxyConfig;
use rift::config::ServerConfig;
use rift::error::ProxyError;
use rift::json::append_decimal;
use rift::protocol::login::check_key_exchange;
use rift::protocol::login::random_token;
use rift::protocol::login::same_bytes;
use rift::protocol::login::token_from;
use rift::util::color::Color;
use rift::util::hash::hexdigest;
use rift::util::hash::server_hash;
use sha1::Digest;

#[test]
fn colour_markers_translated() {
    let s = String::from("&3Enter the &lrift.");
    assert_eq!(s.colored(), "\u{a7}3Enter the \u{a7}lrift.");
    assert_eq!(String::from("plain").colored(), "plain");
}

#[test]
fn colour_translation_idempotent() {
    for s in ["&a&b", "no markers", "", "&&&"] {
        let once = String::from(s).colored();
        assert_eq!(once.colored(), once);
    }
}

#[test]
fn server_hash_known_values() {
    assert_eq!(server_hash("Notch", &[], &[]), "4ed1f46bbe04bc756bcb17c0c7ce3e4632f06a48");
    assert_eq!(server_hash("jeb_", &[], &[]), "-7c9d5b0044c130109a5d7b5fb5c317c02b4e28c1");
    assert_eq!(server_hash("simon", &[], &[]), "88e16a1019277b15d58faf0541e11910eb756f6");
    assert_eq!(server_hash("", b"Not", b"ch"), "4ed1f46bbe04bc756bcb17c0c7ce3e4632f06a48");
}

#[test]
fn server_hash_sign_follows_top_bit() {
    let secret = [0u8; 16];
    let key = [0u8; 162];
    let mut data = Vec::new();
    data.extend_from_slice(&secret);
    data.extend_from_slice(&key);
    let digest = sha1::Sha1::digest(&data);
    let hash = server_hash("", &secret, &key);
    assert_eq!(hash.starts_with('-'), digest[0] >= 0x80);
    assert_eq!(hash, hexdigest(&digest));
}

#[test]
fn hexdigest_forms() {
    assert_eq!(hexdigest(&[0x00, 0x0f]), "f");
    assert_eq!(hexdigest(&[0xff, 0xff]), "-1");
    assert_eq!(hexdigest(&[0x80, 0x00]), "-8000");
    assert_eq!(hexdigest(&[0x00]), "0");
}

#[test]
fn cipher_round_trip() {
    let key = [7u8; 16];
    let plain: Vec<u8> = (0..200u32).map(|i| (i * 37 % 251) as u8).collect();
    let mut enc = CipherStream::new(&key);
    let cipher = enc.encrypt(&plain);
    assert_eq!(cipher.len(), plain.len());
    assert_ne!(cipher, plain);
    let mut dec = CipherStream::new(&key);
    assert_eq!(dec.decrypt(&cipher), plain);
}

#[test]
fn cipher_stream_in_chunks_matches_whole() {
    let key = [0x42u8; 16];
    let plain: Vec<u8> = (0..100u8).collect();
    let mut whole = CipherStream::new(&key);
    let all = whole.encrypt(&plain);
    let mut parts = CipherStream::new(&key);
    let mut joined = parts.encrypt(&plain[..3]);
    joined.extend(parts.encrypt(&plain[3..40]));
    joined.extend(parts.encrypt(&plain[40..]));
    assert_eq!(joined, all);
    let mut dec = CipherStream::new(&key);
    let mut back = dec.decrypt(&all[..50]);
    back.extend(dec.decrypt(&all[50..]));
    assert_eq!(back, plain);
}

#[test]
fn decimal_text() {
    for (v, s) in [(0i64, "0"), (754, "754"), (-1, "-1"), (i64::MIN, "-9223372036854775808"), (i64::MAX, "9223372036854775807")] {
        let mut out = String::new();
        append_decimal(&mut out, v);
        assert_eq!(out, s);
    }
}

#[test]
fn tokens() {
    assert_eq!(token_from(-5), b"-5".to_vec());
    assert_eq!(token_from(1234), b"1234".to_vec());
    let t = random_token();
    assert!(!t.is_empty() && t.len() <= 20);
}

#[test]
fn key_exchange_checks() {
    let expected = [1u8, 2, 3, 4];
    let secret = vec![9u8; 16];
    assert_eq!(check_key_exchange(&expected, Some(vec![1, 2, 3, 4]), Some(secret.clone())), Ok(secret.clone()));
    assert_eq!(check_key_exchange(&expected, Some(vec![1, 2, 3, 5]), Some(secret.clone())), Err(ProxyError::AuthFailed));
    assert_eq!(check_key_exchange(&expected, None, Some(secret.clone())), Err(ProxyError::AuthFailed));
    assert_eq!(check_key_exchange(&expected, Some(vec![1, 2, 3, 4]), None), Err(ProxyError::AuthFailed));
    assert_eq!(check_key_exchange(&expected, Some(vec![1, 2, 3, 4]), Some(vec![9u8; 17])), Err(ProxyError::InvalidSecret));
    assert!(same_bytes(&[1, 2], &[1, 2]));
    assert!(!same_bytes(&[1, 2], &[1, 2, 3]));
}

#[test]
fn default_configuration() {
    let c = ProxyConfig::default();
    assert_eq!(c.bind, "0.0.0.0:25570");
    assert!(c.ip_forward && c.online_mode);
    assert_eq!(c.max_players, 20);
    assert_eq!(c.motd, "&3Enter the rift.");
    assert!(c.favicon.is_none());
    assert_eq!(c.servers.len(), 1);
    assert_eq!(c.servers[0].id, "lobby");
    assert_eq!(c.servers[0].address, "localhost:25565");
    assert!(c.servers[0].default);
}

#[test]
fn favicon_installed() {
    let mut c = ProxyConfig::default();
    c.set_favicon(String::from("AAAA"));
    assert_eq!(c.favicon.as_deref(), Some("AAAA"));
}

fn server(id: &str, default: bool) -> ServerConfig {
    ServerConfig { id: String::from(id), address: format!("{}:25565", id), default }
}

#[test]
fn default_server_choice() {
    let mut c = ProxyConfig::default();
    c.servers = vec![server("a", false), server("b", true), server("c", false), server("d", true)];
    let ids: Vec<String> = c.default_servers().into_iter().map(|s| s.id).collect();
    assert_eq!(ids, vec!["b", "d"]);
    assert_eq!(c.default_server_at(0).unwrap().id, "b");
    assert_eq!(c.default_server_at(3).unwrap().id, "d");
    for _ in 0..20 {
        let s = c.get_default_server().unwrap();
        assert!(s.id == "b" || s.id == "d");
    }
}

#[test]
fn no_default_server() {
    let mut c = ProxyConfig::default();
    c.servers = vec![server("a", false), server("b", false)];
    assert!(c.default_server_at(0).is_none());
    assert_eq!(c.get_default_server().err(), Some(ProxyError::NoDefaultBackend));
}
