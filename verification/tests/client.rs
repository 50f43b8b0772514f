use bevy_slinet::address::SocketAddr;
use bevy_slinet::client::{
    connection_attempt, connection_establish_system, connection_remove_system,
    connection_request_system, create_connection, packet_receive_system, reader_goes_on,
    reader_step, ClientConnection, ClientConnections, ClientPlugin, ConnectionAttempt,
    ConnectionRequestEvent, CurrentConnection, ReaderAction,
};
use bevy_slinet::connection::{
    ConnectionCounter, ConnectionId, DisconnectTasks, EcsConnection, SendError,
};
use bevy_slinet::protocol::{NetworkStream, ReceiveError};
use bevy_slinet::protocols::udp::UdpClientStream;
use bevy_slinet::tasks::{writer_step, ReaderEvent, WriterAction, WriterEvent};
use std::collections::VecDeque;
use tokio::sync::mpsc::unbounded_channel;

const LOCAL: SocketAddr = SocketAddr::V4 { octets: 0x7f000001, port: 40000 };

type Error = ReceiveError<&'static str, &'static str, &'static str>;

fn server(port: u16) -> SocketAddr {
    SocketAddr::V4 { octets: 0x7f000001, port }
}

fn connect(counter: &mut ConnectionCounter, port: u16) -> ClientConnection<u8> {
    let (tx, _) = unbounded_channel();
    EcsConnection {
        disconnect_task: DisconnectTasks::new().create(),
        id: ConnectionId::next(counter),
        packet_tx: tx,
        local_addr: LOCAL,
        peer_addr: server(port),
    }
}

fn ids(connections: &ClientConnections<u8>) -> Vec<String> {
    connections.0.iter().map(|connection| connection.id().debug_text()).collect()
}

fn current_id(
    current: &CurrentConnection<ClientConnection<u8>>,
) -> Option<String> {
    match current {
        CurrentConnection::Replaced(connection) => Some(connection.id().debug_text()),
        _ => None,
    }
}

#[test]
fn the_plugin_connects_if_it_is_told_to() {
    assert!(ClientPlugin::new().initial_request().is_none());
    assert!(ClientPlugin::default().initial_request().is_none());
    let plugin = ClientPlugin::connect(&vec![server(1), server(2)]);
    assert_eq!(plugin.initial_request().unwrap().address(), server(1));
}

#[test]
fn requests_keep_their_order() {
    let first = ConnectionRequestEvent::new(&vec![server(3), server(4)]);
    let events = vec![
        first.clone(),
        ConnectionRequestEvent::new(&vec![server(1)]),
        first,
    ];
    assert_eq!(
        connection_request_system(&events),
        vec![server(3), server(1), server(3)]
    );
    assert_eq!(connection_request_system(&vec![]), vec![]);
}

#[test]
fn packets_become_events_in_their_order() {
    let mut counter = ConnectionCounter::new();
    let one = connect(&mut counter, 1);
    let other = connect(&mut counter, 2);
    let mut packets = VecDeque::new();
    packets.push_back((one.clone(), "a"));
    packets.push_back((other, "b"));
    packets.push_back((one, "c"));
    let events = packet_receive_system(&mut packets);
    assert!(packets.is_empty());
    let seen: Vec<(String, &str)> = events
        .iter()
        .map(|event| (event.connection.id().debug_text(), event.packet))
        .collect();
    assert_eq!(
        seen,
        vec![("#0".to_string(), "a"), ("#1".to_string(), "b"), ("#0".to_string(), "c")]
    );
}

#[test]
fn established_connections_are_added() {
    let mut counter = ConnectionCounter::new();
    let mut connections = ClientConnections::new();
    let mut new = VecDeque::new();
    let (current, events) = connection_establish_system(&mut new, &mut connections);
    assert!(matches!(current, CurrentConnection::Unchanged));
    assert!(events.is_empty());

    new.push_back((server(7), connect(&mut counter, 1)));
    new.push_back((server(8), connect(&mut counter, 2)));
    let (current, events) = connection_establish_system(&mut new, &mut connections);
    assert!(new.is_empty());
    assert_eq!(ids(&connections), vec!["#0", "#1"]);
    assert_eq!(current_id(&current).unwrap(), "#1");
    assert_eq!(events.len(), 2);
    assert_eq!(events[0].address, server(7));
    assert_eq!(events[0].connection.id().debug_text(), "#0");
    assert_eq!(events[1].address, server(8));
    assert_eq!(events[1].connection.peer_addr(), server(2));
}

#[test]
fn ended_connections_are_removed() {
    let mut counter = ConnectionCounter::new();
    let mut connections = ClientConnections::new();
    for port in [1, 2, 1, 3] {
        connections.0.push(connect(&mut counter, port));
    }
    let mut ended: VecDeque<(Error, SocketAddr)> = VecDeque::new();
    let (current, events) = connection_remove_system(&mut ended, &mut connections);
    assert!(matches!(current, CurrentConnection::Unchanged));
    assert!(events.is_empty());

    ended.push_back((ReceiveError::PacketTooBig, server(1)));
    ended.push_back((ReceiveError::IntentionalDisconnection, server(3)));
    let (current, events) = connection_remove_system(&mut ended, &mut connections);
    assert!(ended.is_empty());
    assert_eq!(ids(&connections), vec!["#1"]);
    assert_eq!(current_id(&current).unwrap(), "#1");
    assert_eq!(events.len(), 2);
    assert_eq!(events[0].address, server(1));
    assert!(matches!(events[0].error, ReceiveError::PacketTooBig));
    assert_eq!(events[1].address, server(3));

    ended.push_back((ReceiveError::Io("gone"), server(2)));
    let (current, _) = connection_remove_system(&mut ended, &mut connections);
    assert!(connections.0.is_empty());
    assert!(matches!(current, CurrentConnection::Removed));
}

#[test]
fn a_connection_that_comes_and_goes_leaves_no_trace() {
    let mut counter = ConnectionCounter::new();
    let mut connections = ClientConnections::new();
    connections.0.push(connect(&mut counter, 1));
    connections.0.push(connect(&mut counter, 2));
    let before = ids(&connections);
    let mut new = VecDeque::new();
    new.push_back((server(3), connect(&mut counter, 3)));
    connection_establish_system(&mut new, &mut connections);
    assert_eq!(connections.0.len(), 3);
    let mut ended: VecDeque<(Error, SocketAddr)> = VecDeque::new();
    ended.push_back((ReceiveError::Io("gone"), server(3)));
    let (current, _) = connection_remove_system(&mut ended, &mut connections);
    assert_eq!(ids(&connections), before);
    assert_eq!(current_id(&current).unwrap(), "#1");
}

#[test]
fn a_stream_becomes_a_connection() {
    let mut counter = ConnectionCounter::new();
    let mut tasks = DisconnectTasks::new();
    let connected: Result<&str, &str> = Ok("stream");
    let raw = create_connection(connected, 1, 2, 3, &mut counter, &mut tasks).ok().unwrap();
    assert_eq!(raw.stream, "stream");
    assert_eq!((raw.serializer, raw.packet_length_serializer, raw.packets_rx), (1, 2, 3));
    assert_eq!(raw.id().debug_text(), "#0");
    assert!(!tasks.requested(raw.disconnect_task));
    let refused: Result<&str, &str> = Err("refused");
    let failed = create_connection(refused, 1, 2, 3, &mut counter, &mut tasks);
    assert_eq!(failed.err(), Some("refused"));
    // A failure draws no id.
    assert_eq!(ConnectionId::next(&mut counter).debug_text(), "#1");
}

#[test]
fn an_attempt_gives_both_sides_or_the_reason() {
    let mut counter = ConnectionCounter::new();
    let mut tasks = DisconnectTasks::new();
    let (tx, rx) = unbounded_channel::<u8>();
    let stream: Result<UdpClientStream, &'static str> =
        Ok(UdpClientStream::new(server(5), LOCAL));
    let attempt: ConnectionAttempt<_, _, _, _, _, _, &str, &str> =
        connection_attempt(server(4), stream, 1, 2, tx, rx, &mut counter, &mut tasks);
    match attempt {
        ConnectionAttempt::Established { announced, served } => {
            assert_eq!(announced.0, server(4));
            assert_eq!(announced.1.peer_addr(), server(5));
            assert_eq!(announced.1.local_addr(), LOCAL);
            assert!(announced.1.id() == served.0.id());
            assert!(served.1.id() == served.0.id());
            assert_eq!(served.0.stream.peer_addr(), server(5));
            let mut rx = served.0.packets_rx;
            assert_eq!(announced.1.send(1, &tasks), Ok(()));
            assert_eq!(served.1.send(2, &tasks), Ok(()));
            assert_eq!((rx.try_recv(), rx.try_recv()), (Ok(1), Ok(2)));
        }
        ConnectionAttempt::Failed(_, _) => panic!("the stream is connected"),
    }

    let (tx, rx) = unbounded_channel::<u8>();
    let refused: Result<UdpClientStream, &'static str> = Err("refused");
    let attempt: ConnectionAttempt<_, _, _, _, _, _, &str, &str> =
        connection_attempt(server(4), refused, 1, 2, tx, rx, &mut counter, &mut tasks);
    match attempt {
        ConnectionAttempt::Failed(ReceiveError::NoConnection(error), address) => {
            assert_eq!(error, "refused");
            assert_eq!(address, server(4));
        }
        _ => panic!("there is no stream"),
    }
}

#[test]
fn the_reader_tells_of_packets_and_of_the_end() {
    let mut counter = ConnectionCounter::new();
    let mut tasks = DisconnectTasks::new();
    let (tx, _rx) = unbounded_channel::<u8>();
    let mut connection = connect(&mut counter, 1);
    connection.disconnect_task = tasks.create();
    connection.packet_tx = tx;
    let event: ReaderEvent<&str, &str, &str, &str> = ReaderEvent::Received(Ok("packet"));
    match reader_step(&connection, server(9), event, &mut tasks) {
        ReaderAction::Deliver(receiver, packet) => {
            assert!(receiver.id() == connection.id());
            assert_eq!(packet, "packet");
        }
        ReaderAction::Disconnect(_, _) => panic!("a packet came"),
    }
    assert_eq!(connection.send(1, &tasks), Ok(()));
    let event: ReaderEvent<&str, &str, &str, &str> =
        ReaderEvent::Received(Err(ReceiveError::Deserialization("bad")));
    match reader_step(&connection, server(9), event, &mut tasks) {
        ReaderAction::Disconnect(ReceiveError::Deserialization(error), address) => {
            assert_eq!((error, address), ("bad", server(9)));
        }
        _ => panic!("no packet came"),
    }
    // Nothing is sent over a connection that ended.
    assert_eq!(connection.send(2, &tasks), Err(SendError(2)));
    let event: ReaderEvent<&str, &str, &str, &str> = ReaderEvent::DisconnectRequested;
    assert!(matches!(
        reader_step(&connection, server(9), event, &mut tasks),
        ReaderAction::Disconnect(ReceiveError::IntentionalDisconnection, _)
    ));
    assert!(reader_goes_on(true, true));
    assert!(!reader_goes_on(true, false));
    assert!(!reader_goes_on(false, true));
}

#[test]
fn the_writer_stops_at_the_first_failure() {
    assert_eq!(writer_step(WriterEvent::Packet("p")), WriterAction::Write("p"));
    assert_eq!(writer_step(WriterEvent::<u8>::Written), WriterAction::Wait);
    assert_eq!(writer_step(WriterEvent::<u8>::Failed), WriterAction::Stop);
    assert_eq!(writer_step(WriterEvent::<u8>::Closed), WriterAction::Stop);
}
