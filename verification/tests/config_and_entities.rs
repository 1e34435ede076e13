use conanprotocol::config::{config_file_path, resolve_config, ConanArgs, ConfigFileValues};
use conanprotocol::constants::{ARTI_KEYSTORE, CACHE_PATH, CONFIG_PATH, DAEMON_SOCKET, DATABASE_PATH};
use conanprotocol::entities::database::chat::{Chat, SELF_ID};
use conanprotocol::entities::database::peer::Peer;
use conanprotocol::msg::PeerStatus;
use conanprotocol::wire::{get_bytes, get_text, get_varint_u16, get_varint_u32, get_varint_u64, put_bytes, put_text, put_varint};

fn no_args() -> ConanArgs {
    ConanArgs { config: None, socket: None, key: None, cache: None, db_path: None }
}

fn no_file() -> ConfigFileValues {
    ConfigFileValues { socket_path: None, key_path: None, cache_path: None, database_path: None }
}

#[test]
fn defaults_are_below_home() {
    let c = resolve_config(no_args(), no_file(), "/home/u");
    assert_eq!(c.socket_path, format!("/home/u{DAEMON_SOCKET}"));
    assert_eq!(c.arti_key_store, "/home/u/.conan/tor_state");
    assert_eq!(c.arti_key_store, format!("/home/u{ARTI_KEYSTORE}"));
    assert_eq!(c.cache_path, format!("/home/u{CACHE_PATH}"));
    assert_eq!(c.db_path, format!("/home/u{DATABASE_PATH}"));
}

#[test]
fn arguments_win_over_the_file_and_the_file_over_defaults() {
    let mut args = no_args();
    args.socket = Some("/tmp/s".to_string());
    args.db_path = Some("/tmp/db".to_string());
    let file = ConfigFileValues {
        socket_path: Some("/file/s".to_string()),
        key_path: Some("/file/k".to_string()),
        cache_path: None,
        database_path: Some("/file/db".to_string()),
    };
    let c = resolve_config(args, file, "/h");
    assert_eq!(c.socket_path, "/tmp/s");
    assert_eq!(c.arti_key_store, "/file/k");
    assert_eq!(c.cache_path, "/h/.conan/cache");
    assert_eq!(c.db_path, "/tmp/db");
}

#[test]
fn config_file_path_prefers_the_argument() {
    assert_eq!(config_file_path(&no_args(), "/h"), format!("/h{CONFIG_PATH}"));
    let mut args = no_args();
    args.config = Some("/etc/conan.toml".to_string());
    assert_eq!(config_file_path(&args, "/h"), "/etc/conan.toml");
}

#[test]
fn peer_and_chat_builders() {
    let p = Peer::build("alice", "alice.onion");
    assert_eq!(p, Peer { id: 0, name: "alice".to_string(), address: "alice.onion".to_string(), connected: false });
    let c = Chat::build_at("hi", 2, 3, "t".to_string());
    assert_eq!(c, Chat { id: 0, sender_id: 2, receiver_id: 3, data: "hi".to_string(), time: "t".to_string() });
    let sent = Chat::chat_to_send("out", 7);
    assert_eq!((sent.sender_id, sent.receiver_id, sent.data.as_str()), (SELF_ID, 7, "out"));
    assert!(!sent.time.is_empty());
    let rec = Chat::chat_to_rec("in", 7);
    assert_eq!((rec.sender_id, rec.receiver_id, rec.data.as_str()), (7, SELF_ID, "in"));
    let b = Chat::build("x", 4, 5);
    assert_eq!((b.id, b.sender_id, b.receiver_id), (0, 4, 5));
}

#[test]
fn peer_status_defaults_to_not_found() {
    assert!(matches!(PeerStatus::default(), PeerStatus::NotFound));
}

#[test]
fn varints_use_the_marker_bytes() {
    let cases: Vec<(u64, Vec<u8>)> = vec![
        (0, vec![0]),
        (250, vec![250]),
        (251, vec![251, 251, 0]),
        (65535, vec![251, 255, 255]),
        (65536, vec![252, 0, 0, 1, 0]),
        (u32::MAX as u64 + 1, vec![253, 0, 0, 0, 0, 1, 0, 0, 0]),
    ];
    for (v, bytes) in cases {
        let mut out = vec![9u8];
        put_varint(&mut out, v);
        assert_eq!(&out[1..], &bytes[..]);
        assert_eq!(get_varint_u64(&out, 1), Some((v, out.len())));
    }
    assert_eq!(get_varint_u32(&[253, 0, 0, 0, 0, 0, 0, 0, 0], 0), None);
    assert_eq!(get_varint_u16(&[252, 1, 0, 0, 0], 0), None);
    assert_eq!(get_varint_u16(&[251, 1, 2], 0), Some((0x0201, 3)));
    assert_eq!(get_varint_u64(&[251, 1], 0), None);
    assert_eq!(get_varint_u64(&[255], 0), None);
}

#[test]
fn byte_and_text_fields_round_trip() {
    let mut out = Vec::new();
    put_bytes(&mut out, &[1, 2, 3]);
    put_text(&mut out, &"ünï".to_string());
    assert_eq!(out[..4], [3, 1, 2, 3]);
    assert_eq!(get_bytes(&out, 0), Some((vec![1, 2, 3], 4)));
    assert_eq!(get_text(&out, 4), Some(("ünï".to_string(), out.len())));
    assert_eq!(get_text(&[2, 0xc3, 0x28], 0), None);
    assert_eq!(get_bytes(&[4, 1, 2], 0), None);
}
