use pollux::error::{ErrorKind, PolluxError};
use pollux::model::{Message, User};
use pollux::node::{node_address, pick_node_address, push_decimal};
use pollux::service_config::{get_default_config, select_config, GlobalConfig, ServiceConfig};
use pollux::text::{
    append_bytes, bytes_equal, copy_range, eq_ignore_ascii_case, literal_bytes,
    to_ascii_lowercase, to_lower, trim_range,
};
use pollux::transport::{
    accept_burst, expect_block, ExactReader, TransportError, REQUEST_CHUNK, REQUEST_LIMIT,
};

#[test]
fn node_address_is_on_this_machine() {
    assert_eq!(node_address(3999), b"127.0.0.1:3999".to_vec());
    assert_eq!(node_address(0), b"127.0.0.1:0".to_vec());
    assert_eq!(node_address(7), b"127.0.0.1:7".to_vec());
    assert_eq!(node_address(10), b"127.0.0.1:10".to_vec());
    assert_eq!(node_address(65535), b"127.0.0.1:65535".to_vec());
}

#[test]
fn picked_address_has_a_port() {
    for _ in 0..50 {
        let address = String::from_utf8(pick_node_address()).unwrap();
        let port = address.strip_prefix("127.0.0.1:").unwrap();
        assert_eq!(port.parse::<u16>().unwrap().to_string(), port);
    }
}

#[test]
fn decimal_digits() {
    let mut out = b"x".to_vec();
    push_decimal(&mut out, 1203);
    assert_eq!(out, b"x1203".to_vec());
}

#[test]
fn default_config_is_a_single_node_on_3999() {
    let config = get_default_config();
    assert!(!config.cluster_mode);
    assert_eq!(config.websocket_port, "3999");
}

fn global() -> GlobalConfig {
    GlobalConfig {
        test: ServiceConfig { cluster_mode: false, websocket_port: "4000".to_string() },
        prod: ServiceConfig { cluster_mode: true, websocket_port: "443".to_string() },
    }
}

#[test]
fn config_is_picked_by_environment() {
    let prod = select_config(global(), &"prod".to_string());
    assert!(prod.cluster_mode);
    assert_eq!(prod.websocket_port, "443");
    for env in ["test", "", "PROD", "production"] {
        let config = select_config(global(), &env.to_string());
        assert!(!config.cluster_mode);
        assert_eq!(config.websocket_port, "4000");
    }
}

#[test]
fn error_is_described() {
    let error = PolluxError::new(ErrorKind::InvalidConfiguration, "no port".to_string());
    assert_eq!(error.error_kind(), ErrorKind::InvalidConfiguration);
    assert_eq!(error.get_message(), "no port");
    assert_eq!(
        error.describe(),
        "Data Frame Error occurred, ErrorKind: InvalidConfiguration, message: no port"
    );
}

#[test]
fn model_types_hold_their_fields() {
    let user = User { user_id: 7 };
    assert_eq!(user.user_id, 7);
    let message = Message { sender_user_id: "alice".to_string(), message: "hi".to_string() };
    assert_eq!(message.sender_user_id, "alice");
    assert_eq!(message.message, "hi");
}

#[test]
fn channel_block_must_have_the_wanted_length() {
    assert_eq!(expect_block(vec![1, 2, 3], 3), Ok(vec![1, 2, 3]));
    assert_eq!(expect_block(vec![1, 2, 3], 2), Err(TransportError::BlockLength));
    assert_eq!(expect_block(vec![], 1), Err(TransportError::BlockLength));
    assert_eq!(expect_block(vec![], 0), Ok(vec![]));
}

#[test]
fn exact_reader_gathers_the_wanted_bytes() {
    let mut reader = ExactReader::new(5);
    assert_eq!(reader.remaining(), 5);
    assert!(!reader.is_complete());
    assert_eq!(reader.accept(&[1, 2]), Ok(false));
    assert_eq!(reader.remaining(), 3);
    assert_eq!(reader.accept(&[3, 4, 5]), Ok(true));
    assert!(reader.is_complete());
    assert_eq!(reader.remaining(), 0);
    assert_eq!(reader.accept(&[]), Ok(true));
    assert_eq!(reader.into_bytes(), vec![1, 2, 3, 4, 5]);
}

#[test]
fn exact_reader_surfaces_a_closed_connection() {
    let mut reader = ExactReader::new(2);
    assert_eq!(reader.accept(&[9]), Ok(false));
    assert_eq!(reader.accept(&[]), Err(TransportError::Closed));
    assert_eq!(reader.accept(&[1, 2]), Err(TransportError::Overrun));
    assert_eq!(reader.remaining(), 1);
    assert_eq!(reader.into_bytes(), vec![9]);
    let mut empty = ExactReader::new(0);
    assert!(empty.is_complete());
    assert_eq!(empty.accept(&[]), Ok(true));
}

#[test]
fn request_head_is_read_until_a_short_read() {
    let mut head = Vec::new();
    assert!(accept_burst(&mut head, &[7; REQUEST_CHUNK]));
    assert!(!accept_burst(&mut head, &[8; 10]));
    assert_eq!(head.len(), REQUEST_CHUNK + 10);
    assert_eq!(head[REQUEST_CHUNK - 1], 7);
    assert_eq!(head[REQUEST_CHUNK], 8);
    let mut head = Vec::new();
    assert!(!accept_burst(&mut head, &[]));
    assert!(head.is_empty());
}

#[test]
fn request_head_is_cut_at_the_limit() {
    let mut head = Vec::new();
    for _ in 0..(REQUEST_LIMIT / REQUEST_CHUNK - 1) {
        assert!(accept_burst(&mut head, &[1; REQUEST_CHUNK]));
    }
    assert!(!accept_burst(&mut head, &[2; REQUEST_CHUNK]));
    assert_eq!(head.len(), REQUEST_LIMIT);
    assert!(!accept_burst(&mut head, &[3; REQUEST_CHUNK]));
    assert_eq!(head.len(), REQUEST_LIMIT);
    let mut head = vec![0; REQUEST_LIMIT - 3];
    assert!(!accept_burst(&mut head, &[1, 2, 3, 4, 5]));
    assert_eq!(head[REQUEST_LIMIT - 3..], [1, 2, 3]);
}

#[test]
fn text_helpers() {
    assert_eq!(literal_bytes("host"), b"host");
    assert_eq!(to_lower(b'A'), b'a');
    assert_eq!(to_lower(b'Z'), b'z');
    assert_eq!(to_lower(b'@'), b'@');
    assert_eq!(to_lower(b'['), b'[');
    assert_eq!(to_lower(0xc4), 0xc4);
    assert_eq!(to_ascii_lowercase(b"Sec-WebSocket-Key"), b"sec-websocket-key".to_vec());
    assert!(eq_ignore_ascii_case(b"GET", b"get"));
    assert!(!eq_ignore_ascii_case(b"GET", b"gets"));
    assert!(!eq_ignore_ascii_case(b"@", b"`"));
    assert!(bytes_equal(b"abc", b"abc"));
    assert!(!bytes_equal(b"abc", b"abC"));
    assert!(!bytes_equal(b"abc", b"ab"));
    assert_eq!(trim_range(b" \ta b\t ", 0, 7), (2, 5));
    assert_eq!(trim_range(b"   ", 0, 3), (3, 3));
    assert_eq!(trim_range(b"x, y ,z", 2, 5), (3, 4));
    assert_eq!(copy_range(b"hello", 1, 3), b"el".to_vec());
    let mut out = b"a".to_vec();
    append_bytes(&mut out, b"bc");
    assert_eq!(out, b"abc".to_vec());
}
