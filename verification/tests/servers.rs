use rusty_procedure_call::channels::{lookup, register};
use std::collections::HashMap;
use rusty_procedure_call::node::{peer_ports, Node};
use rusty_procedure_call::server::{Message, NetEvent, ServerFault, ServerState, NO_AUTH};
use rusty_procedure_call::RpcError;

#[test]
fn channels_register_and_lookup() {
    let mut c: HashMap<u64, &str> = HashMap::new();
    assert!(matches!(lookup(&c, 7), Err(RpcError::MissingClient)));
    register(&mut c, 7, "seven");
    register(&mut c, 8, "eight");
    assert_eq!(*lookup(&c, 7).unwrap(), "seven");
    assert_eq!(*lookup(&c, 8).unwrap(), "eight");
    register(&mut c, 7, "seven again");
    assert_eq!(*lookup(&c, 7).unwrap(), "seven again");
    assert_eq!(*lookup(&c, 8).unwrap(), "eight");
    assert_eq!(c.len(), 2);
    assert!(matches!(lookup(&c, 9), Err(RpcError::MissingClient)));
}

#[test]
fn first_tcp_client_becomes_authoritative() {
    let mut s: ServerState<u32> = ServerState::new(9000);
    assert_eq!(s.port(), 9000);
    assert_eq!(s.auth(), NO_AUTH);
    assert_eq!(s.handle_event(NetEvent::Accepted(1)), Ok(None));
    assert_eq!(s.handle_event(NetEvent::Message(1, Some(Message::ConnectTcp(42)))), Ok(None));
    assert_eq!(s.auth(), 42);
    assert_eq!(s.handle_event(NetEvent::Message(2, Some(Message::ConnectTcp(43)))), Ok(None));
    assert_eq!(s.auth(), 42);
}

#[test]
fn udp_connection_is_acknowledged_on_tcp() {
    let mut s: ServerState<u32> = ServerState::new(9000);
    s.handle_event(NetEvent::Message(1, Some(Message::ConnectTcp(5)))).unwrap();
    assert_eq!(
        s.handle_event(NetEvent::Message(100, Some(Message::ConnectUdp(5)))),
        Ok(Some((1, Message::OkUdp)))
    );
    assert_eq!(
        s.handle_event(NetEvent::Message(101, Some(Message::ConnectUdp(5)))),
        Err(ServerFault::DoubleUdp)
    );
}

#[test]
fn server_faults() {
    let mut s: ServerState<u32> = ServerState::new(9000);
    assert_eq!(s.handle_event(NetEvent::Message(1, Some(Message::ConnectUdp(5)))), Err(ServerFault::UnknownUdp));
    assert_eq!(s.handle_event(NetEvent::Connected(1)), Err(ServerFault::UnexpectedConnect));
    assert_eq!(s.handle_event(NetEvent::Message(1, None)), Err(ServerFault::UndecodableMessage));
    s.handle_event(NetEvent::Message(1, Some(Message::ConnectTcp(5)))).unwrap();
    assert_eq!(s.handle_event(NetEvent::Message(3, Some(Message::ConnectTcp(5)))), Err(ServerFault::DoubleTcp));
    // the second connection was recorded before the fault was reported
    assert_eq!(
        s.handle_event(NetEvent::Message(100, Some(Message::ConnectUdp(5)))),
        Ok(Some((3, Message::OkUdp)))
    );
}

#[test]
fn other_messages_are_acknowledged() {
    let mut s: ServerState<u32> = ServerState::new(9000);
    assert_eq!(s.handle_event(NetEvent::Message(4, Some(Message::Okay))), Ok(Some((4, Message::Okay))));
    assert_eq!(s.handle_event(NetEvent::Message(6, Some(Message::OkUdp))), Ok(Some((6, Message::Okay))));
    assert_eq!(s.handle_event(NetEvent::Disconnected(6)), Ok(None));
    assert_eq!(s.auth(), NO_AUTH);
}

#[test]
fn node_answers() {
    let n = Node { addr: "127.0.0.1:8080".to_string() };
    assert!(n.alive());
    assert!(!n.private());
}

#[test]
fn peers_of_each_node() {
    assert_eq!(peer_ports(8080, 8082, 8080), vec![8081]);
    assert_eq!(peer_ports(8080, 8082, 8081), vec![8080]);
    assert_eq!(peer_ports(8080, 8085, 8082), vec![8080, 8081, 8083, 8084]);
    assert_eq!(peer_ports(8080, 8082, 9000), vec![8080, 8081]);
    assert!(peer_ports(8082, 8080, 8080).is_empty());
    assert_eq!(peer_ports(0, 3, 0), vec![1, 2]);
    assert_eq!(peer_ports(65533, 65535, 1), vec![65533, 65534]);
}

#[test]
fn rpc_error_conversions_and_messages() {
    let io = std::io::Error::new(std::io::ErrorKind::Other, "boom");
    let e: RpcError = io.into();
    assert!(matches!(e, RpcError::IOError(_)));
    assert_eq!(e.message(), "io error");
    let bad: Result<u8, postcard::Error> = postcard::from_bytes(&[]);
    let e: RpcError = bad.unwrap_err().into();
    assert!(matches!(e, RpcError::SerializeError(_)));
    assert_eq!(e.message(), "serialize error");
    let e: RpcError = tokio::sync::mpsc::error::SendError(vec![1u8]).into();
    assert!(matches!(e, RpcError::MPSCSendError(_)));
    assert_eq!(e.message(), "mpsc send error");
    assert_eq!(RpcError::MissingClient.message(), "missing client");
}

#[test]
fn run_of_connections_from_start() {
    let mut s: ServerState<u32> = ServerState::new(7000);
    let events = vec![
        NetEvent::Accepted(1),
        NetEvent::Message(1, Some(Message::ConnectTcp(11))),
        NetEvent::Message(9, Some(Message::Okay)),
        NetEvent::Message(2, Some(Message::ConnectTcp(12))),
        NetEvent::Message(20, Some(Message::ConnectUdp(12))),
        NetEvent::Message(3, Some(Message::ConnectTcp(13))),
        NetEvent::Disconnected(2),
    ];
    let mut replies = Vec::new();
    for ev in events {
        replies.push(s.handle_event(ev).unwrap());
    }
    assert_eq!(s.port(), 7000);
    assert_eq!(s.auth(), 11);
    assert_eq!(replies, vec![None, None, Some((9, Message::Okay)), None, Some((2, Message::OkUdp)), None, None]);
    // each id is connected exactly once: a second TCP connection under any of them is a fault
    for (ep, id) in [(1u32, 11u64), (2, 12), (3, 13)] {
        let mut t: ServerState<u32> = ServerState::new(7000);
        t.handle_event(NetEvent::Message(ep, Some(Message::ConnectTcp(id)))).unwrap();
        assert_eq!(t.handle_event(NetEvent::Message(ep, Some(Message::ConnectTcp(id)))), Err(ServerFault::DoubleTcp));
    }
    // the connections are exactly the ids seen, with their TCP endpoints
    assert_eq!(s.handle_event(NetEvent::Message(30, Some(Message::ConnectUdp(13)))), Ok(Some((3, Message::OkUdp))));
    assert_eq!(s.handle_event(NetEvent::Message(31, Some(Message::ConnectUdp(11)))), Ok(Some((1, Message::OkUdp))));
    assert_eq!(s.handle_event(NetEvent::Message(32, Some(Message::ConnectUdp(14)))), Err(ServerFault::UnknownUdp));
}
