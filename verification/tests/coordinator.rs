use ruleco::base::ContentTypes;
use ruleco::base::FullName;
use ruleco::control_protocol::Error;
use ruleco::control_protocol::Message;
use ruleco::coordinator::Coordinator;
use ruleco::coordinator::MessageContainer;
use ruleco::directory::Component;
use ruleco::json::ErrorResponse;
use ruleco::json::Request;
use ruleco::json::Response;

const NOW: u64 = 1000;

fn make_coordinator() -> Coordinator {
    let mut c = Coordinator::new("N1");
    c.components.insert(
        b"com_A".to_vec(),
        Component {
            identity: b"id_A".to_vec(),
            last_seen: NOW,
        },
    );
    c.components.insert(
        b"com_B".to_vec(),
        Component {
            identity: b"id_B".to_vec(),
            last_seen: NOW,
        },
    );
    c
}

fn make_message() -> Message {
    Message::build(
        b"receiver".to_vec(),
        b"sender".to_vec(),
        None,
        None,
        1,
        ContentTypes::Null,
    )
}

#[test]
fn test_find_routing_local_without_namespace() {
    let c = make_coordinator();
    let r = c.find_routing_information(&FullName::from_slice(b"com_A").unwrap());
    assert_eq!(r, Ok((b"".to_vec(), b"id_A".to_vec())))
}

#[test]
fn test_find_routing_local_without_namespace_fails() {
    let c = make_coordinator();
    let r = c.find_routing_information(&FullName::from_slice(b"com_X").unwrap());
    assert_eq!(r, Err(Error::ReceiverUnknown))
}

#[test]
fn test_find_routing_local_with_namespace() {
    let c = make_coordinator();
    let r = c.find_routing_information(&FullName::from_slice(b"N1.com_B").unwrap());
    assert_eq!(r, Ok((b"".to_vec(), b"id_B".to_vec())))
}

#[test]
fn test_find_routing_local_with_namespace_fails() {
    let c = make_coordinator();
    let r = c.find_routing_information(&FullName::from_slice(b"N1.com_X").unwrap());
    assert_eq!(r, Err(Error::ReceiverUnknown))
}

#[test]
fn test_find_routing_unknown_namespace_fails() {
    let c = make_coordinator();
    let r = c.find_routing_information(&FullName::from_slice(b"NX.com_B").unwrap());
    assert_eq!(r, Err(Error::NodeUnknown))
}

#[test]
fn test_route_message() {
    let mut c = make_coordinator();
    let message = Message::build(
        b"com_B".to_vec(),
        b"com_A".to_vec(),
        None,
        None,
        1,
        ContentTypes::Null,
    );
    let scm = c
        .route_message(
            MessageContainer {
                identity: b"id_A".to_vec(),
                message: message.clone(),
            },
            NOW,
        )
        .unwrap();
    assert_eq!(scm.msg_cont.message.to_frames(), message.to_frames());
    assert_eq!(scm.msg_cont.identity, b"id_B".to_vec())
}

#[test]
fn test_route_message_ping() {
    let mut c = make_coordinator();
    let request = Request::build(1, b"pong".to_vec());
    let response = Response::build(1, None);
    let message = Message::build(
        b"COORDINATOR".to_vec(),
        b"N1.com_A".to_vec(),
        None,
        None,
        1,
        ContentTypes::Frame(request.to_bytes()),
    );
    let scm = c
        .route_message(
            MessageContainer {
                identity: b"id_A".to_vec(),
                message,
            },
            NOW,
        )
        .unwrap();
    assert_eq!(scm.receiving_namespace, b"".to_vec());
    assert_eq!(scm.msg_cont.identity, b"id_A".to_vec());
    let m2 = scm.msg_cont.message;
    assert_eq!(m2.content_frame().unwrap(), &response.to_bytes());
    assert_eq!(*m2.receiver_frame(), b"N1.com_A".to_vec());
    assert_eq!(*m2.sender_frame(), b"N1.COORDINATOR".to_vec());
}

#[test]
fn test_check_message() -> Result<(), Error> {
    let mut c = make_coordinator();
    let identity = b"id_A".to_vec();
    let message = make_message();
    let sender_name = FullName {
        namespace: b"".to_vec(),
        name: b"com_A".to_vec(),
    };
    let receiver_name = FullName {
        namespace: b"".to_vec(),
        name: b"com_B".to_vec(),
    };
    let result = c.check_message(&identity, &message, &sender_name, &receiver_name, NOW);
    result
}

#[test]
fn test_check_message_not_signed_in() {
    let mut c = make_coordinator();
    let identity = b"id_A".to_vec();
    let message = make_message();
    let sender_name = FullName {
        namespace: b"".to_vec(),
        name: b"com_C".to_vec(),
    };
    let receiver_name = FullName {
        namespace: b"".to_vec(),
        name: b"com_B".to_vec(),
    };
    let result = c.check_message(&identity, &message, &sender_name, &receiver_name, NOW);
    assert![result.is_err_and(|err| err == Error::NotSignedIn)]
}

#[test]
fn test_check_message_updates_last_seen() {
    let mut c = make_coordinator();
    let identity = b"id_A".to_vec();
    let message = make_message();
    let sender_name = FullName {
        namespace: b"".to_vec(),
        name: b"com_A".to_vec(),
    };
    let receiver_name = FullName {
        namespace: b"".to_vec(),
        name: b"com_B".to_vec(),
    };
    let later = NOW + 5;
    let result = c.check_message(&identity, &message, &sender_name, &receiver_name, later);
    assert!(result.is_ok());
    let entry = c.components.get(&b"com_A".to_vec()).unwrap();
    assert_eq!(entry.last_seen, later);
    assert_eq!(entry.identity, b"id_A".to_vec());
}

#[test]
fn test_check_message_duplicate_name() {
    let mut c = make_coordinator();
    let identity = b"id_X".to_vec();
    let message = make_message();
    let sender_name = FullName {
        namespace: b"".to_vec(),
        name: b"com_A".to_vec(),
    };
    let receiver_name = FullName {
        namespace: b"".to_vec(),
        name: b"com_B".to_vec(),
    };
    let result = c.check_message(&identity, &message, &sender_name, &receiver_name, NOW);
    assert!(result.is_err_and(|err| err == Error::DuplicateName));
    let entry = c.components.get(&b"com_A".to_vec()).unwrap();
    assert_eq!(entry.identity, b"id_A".to_vec());
    assert_eq!(entry.last_seen, NOW);
}

#[test]
fn test_route_unsigned_sender_gets_not_signed_in() {
    let mut c = Coordinator::new("N1");
    let message = Message::build(
        b"com_B".to_vec(),
        b"com_C".to_vec(),
        None,
        None,
        1,
        ContentTypes::Frame(b"{}".to_vec()),
    );
    let scm = c
        .route_message(
            MessageContainer {
                identity: b"id_C".to_vec(),
                message,
            },
            NOW,
        )
        .unwrap();
    assert_eq!(scm.msg_cont.identity, b"id_C".to_vec());
    let expected = ErrorResponse::build(0, -32090, b"Component not signed in yet!".to_vec());
    assert_eq!(
        scm.msg_cont.message.content_frame().unwrap(),
        &expected.to_bytes()
    );
    assert!(c.components.get(&b"com_C".to_vec()).is_none());
}

#[test]
fn test_route_sign_in_creates_directory_entry() {
    let mut c = Coordinator::new("N1");
    let request = Request::build(0, b"sign_in".to_vec());
    let response = Response::build(0, None);
    let message = Message::build(
        b"COORDINATOR".to_vec(),
        b"N1.com_A".to_vec(),
        None,
        None,
        1,
        ContentTypes::Frame(request.to_bytes()),
    );
    let scm = c
        .route_message(
            MessageContainer {
                identity: b"id_A".to_vec(),
                message,
            },
            NOW,
        )
        .unwrap();
    assert_eq!(scm.msg_cont.identity, b"id_A".to_vec());
    assert_eq!(
        scm.msg_cont.message.content_frame().unwrap(),
        &response.to_bytes()
    );
    let entry = c.components.get(&b"com_A".to_vec()).unwrap();
    assert_eq!(entry.identity, b"id_A".to_vec());
    assert_eq!(entry.last_seen, NOW);
}

#[test]
fn test_route_unknown_receiver_gets_error() {
    let mut c = Coordinator::new("N1");
    c.components.insert(
        b"com_A".to_vec(),
        Component {
            identity: b"id_A".to_vec(),
            last_seen: NOW,
        },
    );
    let message = Message::build(
        b"com_Z".to_vec(),
        b"com_A".to_vec(),
        None,
        None,
        1,
        ContentTypes::Null,
    );
    let scm = c
        .route_message(
            MessageContainer {
                identity: b"id_A".to_vec(),
                message,
            },
            NOW,
        )
        .unwrap();
    assert_eq!(scm.msg_cont.identity, b"id_A".to_vec());
    let expected = ErrorResponse::build(0, -32093, b"Receiver is not in addresses list.".to_vec());
    assert_eq!(
        scm.msg_cont.message.content_frame().unwrap(),
        &expected.to_bytes()
    );
}

#[test]
fn test_route_unknown_namespace_gets_error() {
    let mut c = make_coordinator();
    let message = Message::build(
        b"NX.com_B".to_vec(),
        b"com_A".to_vec(),
        None,
        None,
        1,
        ContentTypes::Null,
    );
    let scm = c
        .route_message(
            MessageContainer {
                identity: b"id_A".to_vec(),
                message,
            },
            NOW,
        )
        .unwrap();
    assert_eq!(scm.msg_cont.identity, b"id_A".to_vec());
    let expected = ErrorResponse::build(0, -32092, b"Node is unknown.".to_vec());
    assert_eq!(
        scm.msg_cont.message.content_frame().unwrap(),
        &expected.to_bytes()
    );
}

#[test]
fn test_route_sign_out_removes_entry() {
    let mut c = make_coordinator();
    let request = Request::build(2, b"sign_out".to_vec());
    let message = Message::build(
        b"COORDINATOR".to_vec(),
        b"com_A".to_vec(),
        None,
        None,
        1,
        ContentTypes::Frame(request.to_bytes()),
    );
    let scm = c.route_message(
        MessageContainer {
            identity: b"id_A".to_vec(),
            message,
        },
        NOW,
    );
    // the reply cannot be routed any more: the sender just left the directory
    assert!(scm.is_none());
    assert!(c.components.get(&b"com_A".to_vec()).is_none());
    assert!(c.components.get(&b"com_B".to_vec()).is_some());
}

#[test]
fn test_route_shut_down_clears_running() {
    let mut c = make_coordinator();
    c.running = true;
    let request = Request::build(3, b"shut_down".to_vec());
    let response = Response::build(3, None);
    let message = Message::build(
        b"COORDINATOR".to_vec(),
        b"com_A".to_vec(),
        None,
        None,
        1,
        ContentTypes::Frame(request.to_bytes()),
    );
    let scm = c
        .route_message(
            MessageContainer {
                identity: b"id_A".to_vec(),
                message,
            },
            NOW,
        )
        .unwrap();
    assert!(!c.running);
    assert_eq!(
        scm.msg_cont.message.content_frame().unwrap(),
        &response.to_bytes()
    );
}

#[test]
fn test_route_unknown_method_gets_invalid_request() {
    let mut c = make_coordinator();
    let request = Request::build(4, b"dance".to_vec());
    let message = Message::build(
        b"COORDINATOR".to_vec(),
        b"com_A".to_vec(),
        None,
        None,
        1,
        ContentTypes::Frame(request.to_bytes()),
    );
    let scm = c
        .route_message(
            MessageContainer {
                identity: b"id_A".to_vec(),
                message,
            },
            NOW,
        )
        .unwrap();
    let expected = ErrorResponse::build(0, -32600, b"Server error.".to_vec());
    assert_eq!(
        scm.msg_cont.message.content_frame().unwrap(),
        &expected.to_bytes()
    );
}

#[test]
fn test_route_malformed_content_gets_parse_error() {
    let mut c = make_coordinator();
    let message = Message::build(
        b"COORDINATOR".to_vec(),
        b"com_A".to_vec(),
        None,
        None,
        1,
        ContentTypes::Frame(b"no json".to_vec()),
    );
    let scm = c
        .route_message(
            MessageContainer {
                identity: b"id_A".to_vec(),
                message,
            },
            NOW,
        )
        .unwrap();
    let expected = ErrorResponse::build(0, -32700, b"Server error.".to_vec());
    assert_eq!(
        scm.msg_cont.message.content_frame().unwrap(),
        &expected.to_bytes()
    );
}

#[test]
fn test_check_timeouts_pings_and_evicts() {
    let mut c = Coordinator::new("N1");
    c.components.insert(
        b"fresh".to_vec(),
        Component {
            identity: b"id_f".to_vec(),
            last_seen: 100,
        },
    );
    c.components.insert(
        b"quiet".to_vec(),
        Component {
            identity: b"id_q".to_vec(),
            last_seen: 85,
        },
    );
    c.components.insert(
        b"gone".to_vec(),
        Component {
            identity: b"id_g".to_vec(),
            last_seen: 60,
        },
    );
    let pings = c.check_timeouts(105);
    // quiet (idle 20) and gone (idle 45) are pinged, fresh (idle 5) is not
    assert_eq!(pings.len(), 2);
    for ping in &pings {
        let receiver = ping.message.receiver_frame().clone();
        if receiver == b"quiet".to_vec() {
            assert_eq!(ping.identity, b"id_q".to_vec());
        } else {
            assert_eq!(receiver, b"gone".to_vec());
            assert_eq!(ping.identity, b"id_g".to_vec());
        }
        let request = Request::build(0, b"pong".to_vec());
        assert_eq!(ping.message.content_frame().unwrap(), &request.to_bytes());
        assert_eq!(*ping.message.sender_frame(), b"N1.COORDINATOR".to_vec());
    }
    // only the entry idle at least the eviction threshold is gone
    assert!(c.components.get(&b"gone".to_vec()).is_none());
    assert!(c.components.get(&b"quiet".to_vec()).is_some());
    assert!(c.components.get(&b"fresh".to_vec()).is_some());
}

#[test]
fn test_new_coordinator_names() {
    let c = Coordinator::new("N1");
    assert_eq!(c.namespace, b"N1".to_vec());
    assert_eq!(c.full_name, b"N1.COORDINATOR".to_vec());
    assert!(!c.running);
}
