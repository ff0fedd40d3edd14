use pollux::data_frame::{decode_frame, decode_header, DataFrameInfo, ReadFrom};
use pollux::directory::{forward_target, DirectoryCommand};
use pollux::registry::Registry;
use pollux::session::{
    close_session, open_session, peer_step, place_peer_frame, process_binary_frame,
    process_frame, process_ping_frame, process_text_frame, recipient_of,
    send_dataframe_to_other_service, send_response_frame, session_step, Delivery, DropReason,
    FrameAction, PeerAction, SessionError, Step, INBOUND_CHANNEL_CAPACITY,
};

const KEY: [u8; 4] = [0x37, 0xfa, 0x21, 0x3d];

const TO_ALICE: &[u8] = br#"{"sender_user_id":"alice","message":"hi"}"#;

const TO_CAROL: &[u8] = br#"{"sender_user_id":"carol","message":"hi"}"#;

fn client_frame(first_byte: u8, payload: &[u8]) -> DataFrameInfo {
    assert!(payload.len() <= 125);
    let mut bytes = vec![first_byte, 0x80 | payload.len() as u8];
    bytes.extend_from_slice(&KEY);
    bytes.extend(payload.iter().enumerate().map(|(i, b)| b ^ KEY[i % 4]));
    decode_frame(&bytes, ReadFrom::Socket).unwrap()
}

fn unmasked_client_frame(first_byte: u8, payload: &[u8]) -> DataFrameInfo {
    let mut bytes = vec![first_byte, payload.len() as u8];
    bytes.extend_from_slice(payload);
    decode_frame(&bytes, ReadFrom::Socket).unwrap()
}

fn channel_frame(blocks: &[Vec<u8>]) -> DataFrameInfo {
    let mut frame = decode_header(&blocks[0], ReadFrom::Channel).unwrap();
    assert_eq!(frame.payload_length, blocks[1].len());
    frame.payload_data = blocks[1].clone();
    frame
}

fn registry_of(users: &[&str]) -> Registry<u32> {
    let mut registry = Registry::new();
    for (i, user) in users.iter().enumerate() {
        registry.insert(user.to_string(), i as u32);
    }
    registry
}

fn text_blocks(payload: &[u8]) -> Vec<Vec<u8>> {
    vec![vec![0x81, payload.len() as u8], payload.to_vec()]
}

fn delivered(step: Step) -> (Vec<Vec<u8>>, Delivery) {
    match step {
        Step::Deliver { blocks, delivery } => (blocks, delivery),
        other => panic!("not delivered: {:?}", other),
    }
}

#[test]
fn echo_to_oneself_goes_through_the_inbound_channel() {
    let registry = registry_of(&["alice"]);
    let (blocks, delivery) = delivered(session_step(&client_frame(0x81, TO_ALICE), &registry, false));
    assert_eq!(blocks, text_blocks(TO_ALICE));
    assert!(matches!(delivery, Delivery::LocalSession(ref user) if user == "alice"));
    let (blocks, delivery) = delivered(session_step(&channel_frame(&blocks), &registry, false));
    assert_eq!(blocks, text_blocks(TO_ALICE));
    assert!(matches!(delivery, Delivery::ThisClient));
}

#[test]
fn local_recipient_gets_one_server_text_frame() {
    let registry = registry_of(&["alice", "bob"]);
    let (blocks, delivery) = delivered(session_step(&client_frame(0x81, TO_ALICE), &registry, true));
    assert!(matches!(delivery, Delivery::LocalSession(ref user) if user == "alice"));
    assert_eq!(blocks.len(), 2);
    assert_eq!(blocks[0], vec![0x81, TO_ALICE.len() as u8]);
    assert_eq!(blocks[1], TO_ALICE.to_vec());
}

#[test]
fn remote_recipient_is_reached_through_the_directory() {
    let on_n2 = registry_of(&["bob"]);
    let (blocks, delivery) = delivered(session_step(&client_frame(0x81, TO_ALICE), &on_n2, true));
    assert!(matches!(delivery, Delivery::AskDirectory(ref user) if user == "alice"));
    assert_eq!(forward_target(Some(b"127.0.0.1:4001".to_vec())), Some(b"127.0.0.1:4001".to_vec()));

    let mut wire = blocks[0].clone();
    wire.extend_from_slice(&blocks[1]);
    let received = decode_frame(&wire, ReadFrom::Socket).unwrap();
    let on_n1 = registry_of(&["alice"]);
    let (recipient, blocks) = match peer_step(&received, &on_n1) {
        PeerAction::Enqueue { recipient, blocks } => (recipient, blocks),
        other => panic!("not enqueued: {:?}", other),
    };
    assert_eq!(recipient, "alice");
    assert_eq!(blocks, text_blocks(TO_ALICE));
    let (blocks, delivery) = delivered(session_step(&channel_frame(&blocks), &on_n1, true));
    assert!(matches!(delivery, Delivery::ThisClient));
    assert_eq!(blocks, text_blocks(TO_ALICE));
}

#[test]
fn unknown_recipient_is_dropped_and_the_session_stays() {
    let registry = registry_of(&["bob"]);
    let (_, delivery) = delivered(session_step(&client_frame(0x81, TO_CAROL), &registry, false));
    assert!(matches!(delivery, Delivery::Dropped(DropReason::UnknownRecipient)));
    let (_, delivery) = delivered(session_step(&client_frame(0x81, TO_CAROL), &registry, true));
    assert!(matches!(delivery, Delivery::AskDirectory(ref user) if user == "carol"));
    assert_eq!(forward_target(Some(Vec::new())), None);
    assert_eq!(forward_target(None), None);
}

#[test]
fn ping_is_answered_with_a_pong() {
    let registry = registry_of(&["alice"]);
    let (blocks, delivery) = delivered(session_step(&client_frame(0x89, b"abc"), &registry, true));
    assert!(matches!(delivery, Delivery::ThisClient));
    assert_eq!(blocks, vec![vec![0x8a, 3], b"abc".to_vec()]);
    assert_eq!(process_ping_frame(&client_frame(0x89, b"abc")), vec![vec![0x8a, 3], b"abc".to_vec()]);
    assert_eq!(
        process_ping_frame(&unmasked_client_frame(0x89, b"abc")),
        vec![vec![0x8a, 3], b"abc".to_vec()]
    );
}

#[test]
fn close_ends_the_session() {
    let registry = registry_of(&[]);
    assert!(matches!(session_step(&client_frame(0x88, b""), &registry, false), Step::Close));
    assert!(matches!(process_frame(&client_frame(0x88, b"")), FrameAction::Close));
}

#[test]
fn unsupported_opcodes_end_the_session() {
    let registry = registry_of(&["alice"]);
    for first_byte in [0x8au8, 0x80, 0x00, 0x01 | 0x02, 0x8f] {
        let frame = client_frame(first_byte, TO_ALICE);
        assert!(matches!(
            session_step(&frame, &registry, true),
            Step::Fail(SessionError::UnsupportedOpcode)
        ));
    }
}

#[test]
fn unmasked_data_frames_from_the_client_end_the_session() {
    let registry = registry_of(&["alice"]);
    for first_byte in [0x81u8, 0x82] {
        let frame = unmasked_client_frame(first_byte, TO_ALICE);
        assert!(matches!(
            session_step(&frame, &registry, true),
            Step::Fail(SessionError::UnmaskedFrame)
        ));
        assert!(matches!(process_frame(&frame), FrameAction::Fail(SessionError::UnmaskedFrame)));
    }
}

#[test]
fn payload_without_a_recipient_is_dropped() {
    let registry = registry_of(&["alice"]);
    for payload in [
        &b"not json"[..],
        br#"{"message":"hi"}"#,
        br#"{"sender_user_id":7}"#,
        br#"["alice","hi"]"#,
        b"",
    ] {
        let (_, delivery) = delivered(session_step(&client_frame(0x81, payload), &registry, true));
        assert!(matches!(delivery, Delivery::Dropped(DropReason::NoRecipient)));
    }
}

#[test]
fn recipient_is_read_from_the_payload() {
    assert_eq!(recipient_of(TO_ALICE), Some("alice".to_string()));
    assert_eq!(recipient_of(br#"{"sender_user_id":"bob"}"#), Some("bob".to_string()));
    assert_eq!(
        recipient_of(r#"{"other":[1,2],"sender_user_id":"aé","message":null}"#.as_bytes()),
        Some("a\u{e9}".to_string())
    );
    assert_eq!(recipient_of(br#"{"sender_user_id":""}"#), Some(String::new()));
    assert_eq!(recipient_of(br#"{"Sender_User_Id":"bob"}"#), None);
    assert_eq!(recipient_of(br#""alice""#), None);
}

#[test]
fn binary_frames_are_passed_on_as_binary() {
    let frame = client_frame(0x82, TO_ALICE);
    assert_eq!(process_binary_frame(&frame), vec![vec![0x82, TO_ALICE.len() as u8], TO_ALICE.to_vec()]);
    assert_eq!(process_text_frame(&frame), vec![vec![0x81, TO_ALICE.len() as u8], TO_ALICE.to_vec()]);
    let registry = registry_of(&["alice"]);
    let (blocks, delivery) = delivered(session_step(&frame, &registry, false));
    assert_eq!(blocks[0], vec![0x82, TO_ALICE.len() as u8]);
    assert!(matches!(delivery, Delivery::LocalSession(_)));
}

#[test]
fn frames_from_the_channel_are_passed_on_as_they_came() {
    let blocks = vec![vec![0x82u8, 126, 0, 3], vec![1u8, 2, 3]];
    let mut frame = decode_header(&blocks[0], ReadFrom::Channel).unwrap();
    frame.payload_data = blocks[1].clone();
    assert_eq!(process_binary_frame(&frame), blocks);
    assert_eq!(process_text_frame(&frame), blocks);
}

#[test]
fn routing_of_a_response() {
    let registry = registry_of(&["alice"]);
    let from_client = client_frame(0x81, TO_ALICE);
    let alice = || Some("alice".to_string());
    let zed = || Some("zed".to_string());
    assert!(matches!(
        send_response_frame(&from_client, alice(), &registry, false),
        Delivery::LocalSession(_)
    ));
    assert!(matches!(
        send_response_frame(&from_client, zed(), &registry, true),
        Delivery::AskDirectory(_)
    ));
    assert!(matches!(
        send_response_frame(&from_client, zed(), &registry, false),
        Delivery::Dropped(DropReason::UnknownRecipient)
    ));
    assert!(matches!(
        send_response_frame(&from_client, None, &registry, true),
        Delivery::Dropped(DropReason::NoRecipient)
    ));
    let from_peer = channel_frame(&text_blocks(TO_ALICE));
    assert!(matches!(send_response_frame(&from_peer, zed(), &registry, true), Delivery::ThisClient));
    let ping = client_frame(0x89, b"abc");
    assert!(matches!(send_response_frame(&ping, None, &registry, true), Delivery::ThisClient));
    assert!(matches!(
        send_dataframe_to_other_service("zed".to_string(), true),
        Delivery::AskDirectory(ref user) if user == "zed"
    ));
    assert!(matches!(
        send_dataframe_to_other_service("zed".to_string(), false),
        Delivery::Dropped(DropReason::UnknownRecipient)
    ));
}

#[test]
fn peer_frames_for_absent_users_are_dropped() {
    let registry = registry_of(&["bob"]);
    let frame = unmasked_client_frame(0x81, TO_ALICE);
    assert!(matches!(peer_step(&frame, &registry), PeerAction::Dropped(DropReason::UnknownRecipient)));
    let frame = unmasked_client_frame(0x81, b"{}");
    assert!(matches!(peer_step(&frame, &registry), PeerAction::Dropped(DropReason::NoRecipient)));
    assert!(matches!(
        place_peer_frame(&frame, Some("bob".to_string()), &registry),
        PeerAction::Enqueue { .. }
    ));
    assert!(matches!(
        place_peer_frame(&frame, None, &registry),
        PeerAction::Dropped(DropReason::NoRecipient)
    ));
}

#[test]
fn session_is_entered_and_advertised() {
    let mut registry: Registry<u32> = Registry::new();
    let alice = "alice".to_string();
    let start = open_session(&mut registry, &alice, 7, true, b"127.0.0.1:4001");
    assert_eq!(start.displaced, None);
    match start.advertise {
        Some(DirectoryCommand::Advertise { key, value }) => {
            assert_eq!(key, "alice");
            assert_eq!(value, b"127.0.0.1:4001".to_vec());
        }
        other => panic!("not advertised: {:?}", other),
    }
    assert_eq!(registry.get(&alice), Some(&7));
    let start = open_session(&mut registry, &"bob".to_string(), 8, false, b"127.0.0.1:4001");
    assert!(start.advertise.is_none());
    assert_eq!(registry.len(), 2);
}

#[test]
fn second_login_displaces_the_first() {
    let mut registry: Registry<u32> = Registry::new();
    let alice = "alice".to_string();
    open_session(&mut registry, &alice, 1, false, b"");
    let start = open_session(&mut registry, &alice, 2, false, b"");
    assert_eq!(start.displaced, Some(1));
    assert_eq!(registry.get(&alice), Some(&2));
    assert_eq!(registry.len(), 1);
}

#[test]
fn teardown_leaves_no_entry() {
    let mut registry = registry_of(&["alice", "bob"]);
    let alice = "alice".to_string();
    let end = close_session(&mut registry, &alice, true);
    assert_eq!(end.removed, Some(0));
    assert!(matches!(end.withdraw, Some(DirectoryCommand::Withdraw { ref key }) if key == "alice"));
    assert!(!registry.contains(&alice));
    assert_eq!(registry.get(&alice), None);
    assert!(registry.contains(&"bob".to_string()));
    assert_eq!(registry.len(), 1);
    let end = close_session(&mut registry, &alice, false);
    assert_eq!(end.removed, None);
    assert!(end.withdraw.is_none());
}

#[test]
fn registry_maps_users_to_handles() {
    let mut registry: Registry<&str> = Registry::new();
    assert_eq!(registry.len(), 0);
    assert_eq!(registry.insert("a".to_string(), "one"), None);
    assert_eq!(registry.insert("b".to_string(), "two"), None);
    assert_eq!(registry.insert("a".to_string(), "three"), Some("one"));
    assert_eq!(registry.len(), 2);
    assert_eq!(registry.get(&"a".to_string()), Some(&"three"));
    assert_eq!(registry.get(&"b".to_string()), Some(&"two"));
    assert_eq!(registry.get(&"A".to_string()), None);
    assert_eq!(registry.remove(&"b".to_string()), Some("two"));
    assert_eq!(registry.remove(&"b".to_string()), None);
    assert_eq!(registry.len(), 1);
}

#[test]
fn inbound_channel_holds_a_hundred_blocks() {
    assert_eq!(INBOUND_CHANNEL_CAPACITY, 100);
}
