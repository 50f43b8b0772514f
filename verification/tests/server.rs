use bevy_slinet::address::SocketAddr;
use bevy_slinet::connection::{
    ConnectionCounter, ConnectionId, DisconnectTasks, EcsConnection, SendError,
};
use bevy_slinet::protocol::{NetworkStream, ReceiveError};
use bevy_slinet::protocols::udp::UdpClientStream;
use bevy_slinet::server::{
    accept_connection, accept_new_connections, accept_new_packets, connection_add_system,
    reader_step, remove_connections, EcsServerConnection, ListenerAction, ListenerEvent,
    ListenerState, ReaderAction, ServerConnections, ServerPlugin,
};
use bevy_slinet::tasks::ReaderEvent;
use std::collections::VecDeque;
use tokio::sync::mpsc::unbounded_channel;

const SERVER: SocketAddr = SocketAddr::V4 { octets: 0x7f000001, port: 3000 };

type Error = ReceiveError<&'static str, &'static str, &'static str>;
type Connection = EcsServerConnection<u8>;

fn client(port: u16) -> SocketAddr {
    SocketAddr::V4 { octets: 0x7f000001, port }
}

fn connect(counter: &mut ConnectionCounter, port: u16) -> Connection {
    let (tx, _) = unbounded_channel();
    EcsConnection {
        disconnect_task: DisconnectTasks::new().create(),
        id: ConnectionId::next(counter),
        packet_tx: tx,
        local_addr: SERVER,
        peer_addr: client(port),
    }
}

fn ids(connections: &ServerConnections<u8>) -> Vec<String> {
    connections.0.iter().map(|connection| connection.id().debug_text()).collect()
}

#[test]
fn the_plugin_binds_to_the_first_address() {
    assert_eq!(ServerPlugin::bind(&vec![SERVER, client(1)]).address(), SERVER);
}

#[test]
fn accepted_connections_are_announced_and_added() {
    let mut counter = ConnectionCounter::new();
    let mut accepted = VecDeque::new();
    for port in [5, 6] {
        accepted.push_back((client(port), connect(&mut counter, port)));
    }
    let events = accept_new_connections(&mut accepted);
    assert!(accepted.is_empty());
    assert_eq!(events.len(), 2);
    assert_eq!(events[0].address, client(5));
    assert_eq!(events[1].connection.peer_addr(), client(6));

    let mut connections = ServerConnections::new();
    connection_add_system(&mut connections, &events);
    assert_eq!(ids(&connections), vec!["#0", "#1"]);
    connection_add_system(&mut connections, &vec![]);
    assert_eq!(connections.0.len(), 2);
}

#[test]
fn received_packets_become_events() {
    let mut counter = ConnectionCounter::new();
    let mut packets = VecDeque::new();
    packets.push_back((connect(&mut counter, 5), "a"));
    packets.push_back((connect(&mut counter, 6), "b"));
    let events = accept_new_packets(&mut packets);
    assert!(packets.is_empty());
    assert_eq!((events[0].packet, events[1].packet), ("a", "b"));
    assert_eq!(events[1].connection.id().debug_text(), "#1");
}

#[test]
fn ended_connections_are_removed_by_id() {
    let mut counter = ConnectionCounter::new();
    let mut connections = ServerConnections::new();
    // Two connections of one client are told apart.
    for port in [5, 5, 6, 7] {
        connections.0.push(connect(&mut counter, port));
    }
    let mut ended: VecDeque<(Error, Connection)> = VecDeque::new();
    ended.push_back((ReceiveError::Io("gone"), connections.0[1].clone()));
    ended.push_back((ReceiveError::PacketTooBig, connections.0[3].clone()));
    let events = remove_connections(&mut connections, &mut ended);
    assert!(ended.is_empty());
    assert_eq!(ids(&connections), vec!["#0", "#2"]);
    assert!(matches!(events[0].error, ReceiveError::Io("gone")));
    assert_eq!(events[0].connection.id().debug_text(), "#1");
    assert_eq!(events[1].connection.peer_addr(), client(7));
    assert!(remove_connections(&mut connections, &mut ended).is_empty());
    assert_eq!(connections.0.len(), 2);
}

#[test]
fn a_client_that_comes_and_goes_leaves_no_trace() {
    let mut counter = ConnectionCounter::new();
    let mut connections = ServerConnections::new();
    connections.0.push(connect(&mut counter, 5));
    let before = ids(&connections);
    let mut accepted = VecDeque::new();
    accepted.push_back((client(6), connect(&mut counter, 6)));
    let events = accept_new_connections(&mut accepted);
    connection_add_system(&mut connections, &events);
    assert_ne!(ids(&connections), before);
    let mut ended: VecDeque<(Error, Connection)> = VecDeque::new();
    ended.push_back((ReceiveError::IntentionalDisconnection, events[0].connection.clone()));
    remove_connections(&mut connections, &mut ended);
    assert_eq!(ids(&connections), before);
}

#[test]
fn a_client_is_announced_with_its_own_address() {
    let mut counter = ConnectionCounter::new();
    let mut tasks = DisconnectTasks::new();
    let (tx, rx) = unbounded_channel::<u8>();
    let accepted = accept_connection(
        UdpClientStream::new(client(5), SERVER),
        1,
        2,
        tx,
        rx,
        &mut counter,
        &mut tasks,
    );
    assert_eq!(accepted.announced.0, client(5));
    assert_eq!(accepted.announced.1.peer_addr(), client(5));
    assert_eq!(accepted.announced.1.local_addr(), SERVER);
    let (raw, ecs) = accepted.served;
    assert!(ecs.id() == raw.id());
    assert!(accepted.announced.1.id() == raw.id());
    assert_eq!(raw.stream.peer_addr(), client(5));
    assert_eq!((raw.serializer, raw.packet_length_serializer), (1, 2));
    let mut rx = raw.packets_rx;
    assert_eq!(accepted.announced.1.send(3, &tasks), Ok(()));
    assert_eq!(rx.try_recv(), Ok(3));
}

#[test]
fn the_reader_also_tells_the_listener() {
    let mut counter = ConnectionCounter::new();
    let mut tasks = DisconnectTasks::new();
    let mut connection = connect(&mut counter, 5);
    connection.disconnect_task = tasks.create();
    let event: ReaderEvent<&str, &str, &str, &str> = ReaderEvent::Received(Ok("packet"));
    match reader_step(&connection, event, &mut tasks) {
        ReaderAction::Deliver(receiver, packet) => {
            assert!(receiver.id() == connection.id());
            assert_eq!(packet, "packet");
        }
        ReaderAction::Disconnect(_, _, _) => panic!("a packet came"),
    }
    assert!(!tasks.requested(connection.disconnect_task));
    let event: ReaderEvent<&str, &str, &str, &str> =
        ReaderEvent::Received(Err(ReceiveError::LengthDeserialization("bad")));
    match reader_step(&connection, event, &mut tasks) {
        ReaderAction::Disconnect(ReceiveError::LengthDeserialization(error), ended, address) => {
            assert_eq!(error, "bad");
            assert!(ended.id() == connection.id());
            assert_eq!(address, client(5));
        }
        _ => panic!("no packet came"),
    }
    assert_eq!(connection.send(2, &tasks), Err(SendError(2)));
    let event: ReaderEvent<&str, &str, &str, &str> = ReaderEvent::DisconnectRequested;
    match reader_step(&connection, event, &mut tasks) {
        ReaderAction::Disconnect(ReceiveError::IntentionalDisconnection, _, address) => {
            assert_eq!(address, client(5));
        }
        _ => panic!("the connection is to close"),
    }
}

#[test]
fn the_listener_goes_on_until_nothing_is_left() {
    let mut state = ListenerState::new();
    assert!(matches!(state.step(ListenerEvent::Accepted(1)), ListenerAction::Serve(1)));
    assert!(matches!(state.step(ListenerEvent::<u8>::AcceptFailed), ListenerAction::Wait));
    assert!(!state.clients);
    match state.step(ListenerEvent::<u8>::Disconnection(client(5))) {
        ListenerAction::Forget(address) => assert_eq!(address, client(5)),
        _ => panic!("the listener has to forget the client"),
    }
    assert_eq!(state, ListenerState::new());
    assert!(matches!(state.step(ListenerEvent::<u8>::Closed), ListenerAction::Wait));
    assert!(matches!(state.step(ListenerEvent::<u8>::AcceptFailed), ListenerAction::Stop));
}
