use ruleco::VERSION;
use ruleco::base::ContentTypes;
use ruleco::base::FullName;
use ruleco::control_protocol::Error;
use ruleco::control_protocol::Message;

fn create_message() -> Message {
    Message::build(
        b"N1.receiver".to_vec(),
        b"N1.sender".to_vec(),
        None,
        None,
        1,
        ContentTypes::Frame(b"content".to_vec()),
    )
}

#[test]
fn test_version() {
    let msg = create_message();
    assert_eq!(msg.version().unwrap(), VERSION)
}

#[test]
fn test_receiver() {
    let msg = create_message();
    assert_eq!(
        msg.receiver(),
        FullName {
            namespace: b"N1".to_vec(),
            name: b"receiver".to_vec(),
        }
    )
}

#[test]
fn test_header() {
    let msg = create_message();
    let header = msg.header();
    assert_eq!(header.conversation_id.len(), 16);
    assert_eq!(header.message_id, vec![0u8; 3]);
    assert_eq!(header.message_type, 1);
}

#[test]
fn test_content() {
    let msg = create_message();
    assert_eq!(*msg.content_frame().unwrap(), b"content".to_vec())
}

#[test]
fn test_payload() {
    let msg = create_message();
    assert_eq!(msg.payload(), &[b"content".to_vec()][..])
}

#[test]
fn test_build_parse_round_trip() {
    let cid: Vec<u8> = (0u8..16).collect();
    let mid: Vec<u8> = vec![7, 8, 9];
    let msg = Message::build(
        b"N1.receiver".to_vec(),
        b"N1.sender".to_vec(),
        Some(&cid),
        Some(&mid),
        5,
        ContentTypes::Frames(vec![b"one".to_vec(), b"two".to_vec()]),
    );
    let parsed = Message::new(msg.to_frames().clone()).unwrap();
    assert_eq!(parsed.version().unwrap(), VERSION);
    assert_eq!(*parsed.receiver_frame(), b"N1.receiver".to_vec());
    assert_eq!(*parsed.sender_frame(), b"N1.sender".to_vec());
    let header = parsed.header();
    assert_eq!(header.conversation_id, cid);
    assert_eq!(header.message_id, mid);
    assert_eq!(header.message_type, 5);
    assert_eq!(parsed.payload(), &[b"one".to_vec(), b"two".to_vec()][..]);
}

#[test]
fn test_new_rejects_short_frame_lists() {
    let frames = vec![vec![0u8], b"receiver".to_vec(), b"sender".to_vec()];
    assert!(Message::new(frames).is_err());
    let frames = vec![vec![0u8], b"receiver".to_vec(), b"sender".to_vec(), vec![0u8; 20]];
    assert!(Message::new(frames).is_ok());
}

#[test]
fn test_null_content_has_no_payload() {
    let msg = Message::build(
        b"r".to_vec(),
        b"s".to_vec(),
        None,
        None,
        0,
        ContentTypes::Null,
    );
    assert_eq!(msg.to_frames().len(), 4);
    assert!(msg.content_frame().is_none());
}

#[test]
fn test_error_codes_match_table() {
    assert_eq!(Error::ParseError.code(), -32700);
    assert_eq!(Error::InvalidRequest.code(), -32600);
    assert_eq!(Error::MethodNotFound.code(), -32601);
    assert_eq!(Error::InvalidParams.code(), -32602);
    assert_eq!(Error::InternalError.code(), -32603);
    assert_eq!(Error::ServerError.code(), -32000);
    assert_eq!(Error::NotSignedIn.code(), -32090);
    assert_eq!(Error::DuplicateName.code(), -32091);
    assert_eq!(Error::NodeUnknown.code(), -32092);
    assert_eq!(Error::ReceiverUnknown.code(), -32093);
}

#[test]
fn test_error_messages_match_table() {
    assert_eq!(Error::ParseError.message(), "Server error.");
    assert_eq!(Error::ServerError.message(), "Server error.");
    assert_eq!(Error::NotSignedIn.message(), "Component not signed in yet!");
    assert_eq!(Error::DuplicateName.message(), "The name is already taken.");
    assert_eq!(Error::NodeUnknown.message(), "Node is unknown.");
    assert_eq!(
        Error::ReceiverUnknown.message(),
        "Receiver is not in addresses list."
    );
    assert_eq!(
        Error::NotSignedIn.message_bytes(),
        b"Component not signed in yet!".to_vec()
    );
    assert_eq!(Error::InternalError.message_bytes(), b"Server error.".to_vec());
}
