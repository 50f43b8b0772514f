//! The server's side: which connections there are, and what the program is told of
//! them.
use crate::address::SocketAddr;
use crate::connection;
use crate::connection::{
    ConnectionCounter, ConnectionId, DisconnectTasks, EcsConnection, RawConnection,
};
use crate::connections;
use crate::protocol::{NetworkStream, ReceiveError};
use crate::tasks;
use crate::tasks::ReaderEvent;
use std::collections::VecDeque;
use tokio::sync::mpsc::UnboundedSender;
use vstd::prelude::*;

verus! {

/// A server's connection to a client.
pub type EcsServerConnection<ServerPacket> = EcsConnection<ServerPacket>;

/// The connections of a server, the oldest one first.
#[verifier::reject_recursive_types(ServerPacket)]
pub struct ServerConnections<ServerPacket>(pub Vec<EcsServerConnection<ServerPacket>>);

impl<ServerPacket> View for ServerConnections<ServerPacket> {
    type V = Seq<EcsServerConnection<ServerPacket>>;

    open spec fn view(&self) -> Seq<EcsServerConnection<ServerPacket>> {
        self.0@
    }
}

impl<ServerPacket> ServerConnections<ServerPacket> {
    /// No connections.
    pub fn new() -> (connections: Self)
        ensures
            connections@ == Seq::<EcsServerConnection<ServerPacket>>::empty(),
    {
        ServerConnections(Vec::new())
    }
}

// ---------------------------------------------------------------------------
// The plugin.

/// Where the server listens. Use [`ServerPlugin::bind`] to create.
pub struct ServerPlugin {
    address: SocketAddr,
}

impl ServerPlugin {
    /// The address to listen at.
    pub closed spec fn spec_address(self) -> SocketAddr {
        self.address
    }

    /// Binds to the first of the addresses that a name was resolved to.
    pub fn bind(resolved: &Vec<SocketAddr>) -> (plugin: Self)
        requires
            resolved@.len() > 0,
        ensures
            plugin.spec_address() == resolved@[0],
    {
        ServerPlugin { address: resolved[0] }
    }

    /// The address to listen at.
    pub fn address(&self) -> (address: SocketAddr)
        ensures
            address == self.spec_address(),
    {
        self.address
    }
}

// ---------------------------------------------------------------------------
// Events.

/// A new client has connected.
#[verifier::reject_recursive_types(ServerPacket)]
pub struct NewConnectionEvent<ServerPacket> {
    /// The connection.
    pub connection: EcsServerConnection<ServerPacket>,
    /// The client's address.
    pub address: SocketAddr,
}

/// A client disconnected.
#[verifier::reject_recursive_types(ServerPacket)]
pub struct DisconnectionEvent<ServerPacket, Io, SerializerError, LengthError> {
    /// Why.
    pub error: ReceiveError<Io, SerializerError, LengthError>,
    /// The connection.
    pub connection: EcsServerConnection<ServerPacket>,
}

/// A packet was received.
#[verifier::reject_recursive_types(ServerPacket)]
pub struct PacketReceiveEvent<ServerPacket, ClientPacket> {
    /// The connection.
    pub connection: EcsServerConnection<ServerPacket>,
    /// The packet.
    pub packet: ClientPacket,
}

// ---------------------------------------------------------------------------
// The systems.

/// Takes the connections that were accepted, and makes an event of each, in their
/// order.
pub fn accept_new_connections<ServerPacket>(
    receiver: &mut VecDeque<(SocketAddr, EcsServerConnection<ServerPacket>)>,
) -> (events: Vec<NewConnectionEvent<ServerPacket>>)
    ensures
        final(receiver)@.len() == 0,
        events@ == old(receiver)@.map_values(
            |accepted: (SocketAddr, EcsServerConnection<ServerPacket>)|
                (NewConnectionEvent { connection: accepted.1, address: accepted.0 }),
        ),
{
    let mut events: Vec<NewConnectionEvent<ServerPacket>> = Vec::new();
    let ghost all = receiver@;
    while receiver.len() > 0
        invariant
            events@.len() + receiver@.len() == all.len(),
            receiver@ == all.skip(events@.len() as int),
            forall|i: int| 0 <= i < events@.len() ==> #[trigger] events@[i] == (
            NewConnectionEvent { connection: all[i].1, address: all[i].0 }),
        decreases receiver@.len(),
    {
        match receiver.pop_front() {
            Some((address, connection)) => events.push(NewConnectionEvent { connection, address }),
            None => {},
        }
    }
    events
}

/// Takes the packets that were received, and makes an event of each, in their order.
pub fn accept_new_packets<ServerPacket, ClientPacket>(
    receiver: &mut VecDeque<(EcsServerConnection<ServerPacket>, ClientPacket)>,
) -> (events: Vec<PacketReceiveEvent<ServerPacket, ClientPacket>>)
    ensures
        final(receiver)@.len() == 0,
        events@ == old(receiver)@.map_values(
            |received: (EcsServerConnection<ServerPacket>, ClientPacket)|
                (PacketReceiveEvent { connection: received.0, packet: received.1 }),
        ),
{
    let mut events: Vec<PacketReceiveEvent<ServerPacket, ClientPacket>> = Vec::new();
    let ghost all = receiver@;
    while receiver.len() > 0
        invariant
            events@.len() + receiver@.len() == all.len(),
            receiver@ == all.skip(events@.len() as int),
            forall|i: int| 0 <= i < events@.len() ==> #[trigger] events@[i] == (
            PacketReceiveEvent { connection: all[i].0, packet: all[i].1 }),
        decreases receiver@.len(),
    {
        match receiver.pop_front() {
            Some((connection, packet)) => events.push(PacketReceiveEvent { connection, packet }),
            None => {},
        }
    }
    events
}

/// The ids of connections that ended.
pub open spec fn ended_ids<ServerPacket, Io, SerializerError, LengthError>(
    disconnections: Seq<
        (ReceiveError<Io, SerializerError, LengthError>, EcsServerConnection<ServerPacket>),
    >,
) -> Seq<ConnectionId> {
    disconnections.map_values(
        |
            ended: (
                ReceiveError<Io, SerializerError, LengthError>,
                EcsServerConnection<ServerPacket>,
            ),
        |
            ended.1.id,
    )
}

/// Takes the connections that ended, removes them from `connections`, and makes an
/// event of each, in their order.
pub fn remove_connections<ServerPacket, Io, SerializerError, LengthError>(
    connections: &mut ServerConnections<ServerPacket>,
    disconnections: &mut VecDeque<
        (ReceiveError<Io, SerializerError, LengthError>, EcsServerConnection<ServerPacket>),
    >,
) -> (events: Vec<DisconnectionEvent<ServerPacket, Io, SerializerError, LengthError>>)
    ensures
        final(disconnections)@.len() == 0,
        final(connections)@ == connections::without(
            old(connections)@,
            ended_ids(old(disconnections)@),
        ),
        events@ == old(disconnections)@.map_values(
            |
                ended: (
                    ReceiveError<Io, SerializerError, LengthError>,
                    EcsServerConnection<ServerPacket>,
                ),
            |
                (DisconnectionEvent { error: ended.0, connection: ended.1 }),
        ),
{
    let mut events: Vec<DisconnectionEvent<ServerPacket, Io, SerializerError, LengthError>> =
        Vec::new();
    let ghost all = disconnections@;
    let ghost before = connections@;
    proof {
        connections::law_nothing_else_is_removed(before, ended_ids(all).take(0));
    }
    while disconnections.len() > 0
        invariant
            events@.len() + disconnections@.len() == all.len(),
            disconnections@ == all.skip(events@.len() as int),
            forall|i: int| 0 <= i < events@.len() ==> #[trigger] events@[i] == (
            DisconnectionEvent { error: all[i].0, connection: all[i].1 }),
            connections@ == connections::without(
                before,
                ended_ids(all).take(events@.len() as int),
            ),
        decreases disconnections@.len(),
    {
        match disconnections.pop_front() {
            Some((error, connection)) => {
                proof {
                    let done = ended_ids(all).take(events@.len() as int);
                    connections::law_removals_add_up(before, done, connection.id);
                    assert(done.push(connection.id) =~= ended_ids(all).take(
                        events@.len() as int + 1,
                    ));
                }
                connections::remove(&mut connections.0, connection.id());
                events.push(DisconnectionEvent { error, connection });
            },
            None => {},
        }
    }
    assert(ended_ids(all).take(all.len() as int) =~= ended_ids(all));
    events
}

/// The connections of `events`.
pub open spec fn new_connections_of<ServerPacket>(
    events: Seq<NewConnectionEvent<ServerPacket>>,
) -> Seq<EcsServerConnection<ServerPacket>> {
    events.map_values(|event: NewConnectionEvent<ServerPacket>| event.connection)
}

/// Adds the connections of `events` to `connections`, in their order.
pub fn connection_add_system<ServerPacket>(
    connections: &mut ServerConnections<ServerPacket>,
    events: &Vec<NewConnectionEvent<ServerPacket>>,
)
    ensures
        final(connections)@ == old(connections)@ + new_connections_of(events@),
{
    assert(connections@ + new_connections_of(events@).take(0) =~= connections@);
    for i in 0..events.len()
        invariant
            connections@ == old(connections)@ + new_connections_of(events@).take(i as int),
    {
        connections.0.push(events[i].connection.clone());
        assert(connections@ =~= old(connections)@ + new_connections_of(events@).take(i + 1));
    }
    assert(new_connections_of(events@).take(events@.len() as int) =~= new_connections_of(events@));
}

// ---------------------------------------------------------------------------
// The tasks.

/// A connection that was accepted.
#[verifier::reject_recursive_types(ServerPacket)]
pub struct AcceptedConnection<ServerPacket, Stream, Serializer, LengthSerializer, Packets> {
    /// What the program is told: the client's address, and its side of the connection.
    pub announced: (SocketAddr, EcsServerConnection<ServerPacket>),
    /// What the tasks that serve the connection get: both sides of it.
    pub served: (
        RawConnection<Stream, Serializer, LengthSerializer, Packets>,
        EcsServerConnection<ServerPacket>,
    ),
}

/// What is to be done with a `stream` that was accepted. `packet_tx` and `packet_rx`
/// are the two ends of the channel for the packets to be sent.
pub fn accept_connection<
    ServerPacket,
    Stream: NetworkStream,
    Serializer,
    LengthSerializer,
    Packets,
>(
    stream: Stream,
    serializer: Serializer,
    packet_length_serializer: LengthSerializer,
    packet_tx: UnboundedSender<ServerPacket>,
    packet_rx: Packets,
    counter: &mut ConnectionCounter,
    tasks: &mut DisconnectTasks,
) -> (accepted: AcceptedConnection<ServerPacket, Stream, Serializer, LengthSerializer, Packets>)
    requires
        old(tasks)@.created < u64::MAX,
    ensures
        accepted.announced == (
            stream.spec_peer_addr(),
            accepted.served.0.spec_ecs_side(packet_tx),
        ),
        accepted.served.1 == accepted.served.0.spec_ecs_side(packet_tx),
        accepted.served.0.disconnect_task.number() == old(tasks)@.created,
        final(tasks)@ == old(tasks)@.after_create(),
        accepted.served.0.stream == stream,
        accepted.served.0.serializer == serializer,
        accepted.served.0.packet_length_serializer == packet_length_serializer,
        accepted.served.0.packets_rx == packet_rx,
        accepted.served.0.id.number() == old(counter).count(),
        final(counter).count() == connection::count_after(old(counter).count(), 1),
{
    let raw: RawConnection<Stream, Serializer, LengthSerializer, Packets> = RawConnection::new(
        stream,
        serializer,
        packet_length_serializer,
        packet_rx,
        counter,
        tasks,
    );
    let ecs: EcsServerConnection<ServerPacket> = raw.ecs_side(packet_tx);
    AcceptedConnection { announced: (raw.peer_addr(), ecs.clone()), served: (raw, ecs) }
}

/// What the task that reads from a connection does.
#[verifier::reject_recursive_types(ServerPacket)]
pub enum ReaderAction<ServerPacket, ClientPacket, Io, SerializerError, LengthError> {
    /// Give the program a packet, and go on.
    Deliver(EcsServerConnection<ServerPacket>, ClientPacket),
    /// Tell the program that a connection ended and the listener that there is no
    /// connection with an address any more, and end.
    Disconnect(
        ReceiveError<Io, SerializerError, LengthError>,
        EcsServerConnection<ServerPacket>,
        SocketAddr,
    ),
}

/// What tells the program of what `report` says of `connection`, and the listener
/// which address has no connection any more.
pub open spec fn action_for<ServerPacket, ClientPacket, Io, SerializerError, LengthError>(
    connection: EcsServerConnection<ServerPacket>,
    report: tasks::Report<ClientPacket, Io, SerializerError, LengthError>,
) -> ReaderAction<ServerPacket, ClientPacket, Io, SerializerError, LengthError> {
    match report {
        tasks::Report::Packet(packet) => ReaderAction::Deliver(connection, packet),
        tasks::Report::End(error) => ReaderAction::Disconnect(
            error,
            connection,
            connection.peer_addr,
        ),
    }
}

/// What the task that reads from `connection` does after `event`. A connection that
/// ended is closed, so that nothing is sent over it any more.
pub fn reader_step<ServerPacket, ClientPacket, Io, SerializerError, LengthError>(
    connection: &EcsServerConnection<ServerPacket>,
    event: ReaderEvent<ClientPacket, Io, SerializerError, LengthError>,
    tasks: &mut DisconnectTasks,
) -> (action: ReaderAction<ServerPacket, ClientPacket, Io, SerializerError, LengthError>)
    ensures
        action == action_for(*connection, tasks::report(event)),
        final(tasks)@ == tasks::states_after(old(tasks)@, connection.disconnect_task, event),
{
    match event {
        ReaderEvent::Received(Ok(packet)) => ReaderAction::Deliver(connection.clone(), packet),
        ReaderEvent::Received(Err(error)) => {
            connection.disconnect(tasks);
            ReaderAction::Disconnect(error, connection.clone(), connection.peer_addr)
        },
        ReaderEvent::DisconnectRequested => {
            connection.disconnect(tasks);
            ReaderAction::Disconnect(
                ReceiveError::IntentionalDisconnection,
                connection.clone(),
                connection.peer_addr,
            )
        },
    }
}

/// What the task that listens waits for.
pub enum ListenerEvent<Stream> {
    /// A client wants to connect.
    Accepted(Stream),
    /// Waiting for a client failed.
    AcceptFailed,
    /// The connection with a client ended.
    Disconnection(SocketAddr),
    /// No connection is left that could end, and none will be.
    Closed,
}

/// What the task that listens does.
pub enum ListenerAction<Stream> {
    /// Serve the connection over this stream.
    Serve(Stream),
    /// Tell the listener that there is no connection with an address any more.
    Forget(SocketAddr),
    /// Wait for the other of the two things that it waits for.
    Wait,
    /// End.
    Stop,
}

/// What the task that listens still waits for: for clients, and for connections to
/// end.
#[derive(Debug, Clone, Copy, PartialEq, Eq, Structural)]
pub struct ListenerState {
    /// Whether waiting for a client has not failed.
    pub clients: bool,
    /// Whether a connection may still end.
    pub disconnections: bool,
}

impl ListenerState {
    /// The task waits for both.
    pub fn new() -> (state: Self)
        ensures
            state.clients,
            state.disconnections,
    {
        ListenerState { clients: true, disconnections: true }
    }

    /// What the state is after `event`.
    pub open spec fn after<Stream>(self, event: ListenerEvent<Stream>) -> ListenerState {
        match event {
            ListenerEvent::Accepted(_) | ListenerEvent::Disconnection(_) => ListenerState {
                clients: true,
                disconnections: true,
            },
            ListenerEvent::AcceptFailed => ListenerState { clients: false, ..self },
            ListenerEvent::Closed => ListenerState { disconnections: false, ..self },
        }
    }

    /// What the task does after `event`.
    pub open spec fn action<Stream>(self, event: ListenerEvent<Stream>) -> ListenerAction<Stream> {
        match event {
            ListenerEvent::Accepted(stream) => ListenerAction::Serve(stream),
            ListenerEvent::Disconnection(address) => ListenerAction::Forget(address),
            _ => if self.after(event).clients || self.after(event).disconnections {
                ListenerAction::Wait
            } else {
                ListenerAction::Stop
            },
        }
    }

    /// Goes on after `event`. Where waiting for one of the two things fails, the other
    /// one is waited for; where both fail, the task ends. When something happens, both
    /// are waited for again.
    pub fn step<Stream>(&mut self, event: ListenerEvent<Stream>) -> (action: ListenerAction<Stream>)
        ensures
            *final(self) == old(self).after(event),
            action == old(self).action(event),
    {
        match event {
            ListenerEvent::Accepted(stream) => {
                *self = ListenerState::new();
                ListenerAction::Serve(stream)
            },
            ListenerEvent::Disconnection(address) => {
                *self = ListenerState::new();
                ListenerAction::Forget(address)
            },
            ListenerEvent::AcceptFailed => {
                self.clients = false;
                if self.disconnections {
                    ListenerAction::Wait
                } else {
                    ListenerAction::Stop
                }
            },
            ListenerEvent::Closed => {
                self.disconnections = false;
                if self.clients {
                    ListenerAction::Wait
                } else {
                    ListenerAction::Stop
                }
            },
        }
    }
}

/// A server survives a client that could not be accepted: as long as connections may
/// end, the task that listens goes on, and after the next one it accepts clients again.
pub proof fn law_failed_accept_does_not_end_the_server<Stream>(
    state: ListenerState,
    address: SocketAddr,
)
    requires
        state.disconnections,
    ensures
        ({
            let failed = state.after(ListenerEvent::<Stream>::AcceptFailed);
            let disconnection = ListenerEvent::<Stream>::Disconnection(address);
            &&& state.action(ListenerEvent::<Stream>::AcceptFailed) is Wait
            &&& failed.action(disconnection) == ListenerAction::<Stream>::Forget(address)
            &&& failed.after(disconnection).clients
        }),
{
}

/// Every connection that was announced is added, at the end and in order, whatever its
/// address is: the list grows by as many connections as there were events, and those
/// that were in it stay in their places.
pub proof fn law_every_new_connection_is_listed<ServerPacket>(
    connections: Seq<EcsServerConnection<ServerPacket>>,
    events: Seq<NewConnectionEvent<ServerPacket>>,
)
    ensures
        ({
            let listed = connections + new_connections_of(events);
            &&& listed.len() == connections.len() + events.len()
            &&& forall|i: int| 0 <= i < connections.len() ==> #[trigger] listed[i] == connections[i]
            &&& forall|i: int|
                0 <= i < events.len() ==> listed[connections.len() + i] == (
                #[trigger] events[i]).connection
        }),
{
}

/// Exactly the connections go of which it was reported that they ended; every other one
/// stays, those with the same client too.
pub proof fn law_reported_connections_go<ServerPacket, Io, SerializerError, LengthError>(
    connections: Seq<EcsServerConnection<ServerPacket>>,
    disconnections: Seq<
        (ReceiveError<Io, SerializerError, LengthError>, EcsServerConnection<ServerPacket>),
    >,
    connection: EcsServerConnection<ServerPacket>,
)
    ensures
        connections::without(connections, ended_ids(disconnections)).contains(connection)
            <==> connections.contains(connection) && forall|i: int|
            0 <= i < disconnections.len() ==> (#[trigger] disconnections[i]).1.id != connection.id,
{
    let ids = ended_ids(disconnections);
    connections::law_exactly_the_ended_connections_go(connections, ids, connection);
    assert forall|i: int| 0 <= i < disconnections.len() implies ids.contains(
        (#[trigger] disconnections[i]).1.id,
    ) by {
        assert(ids[i] == disconnections[i].1.id);
    }
    if ids.contains(connection.id) {
        let i = choose|i: int| 0 <= i < ids.len() && ids[i] == connection.id;
        assert(disconnections[i].1.id == connection.id);
    }
}

/// The program gets every packet with its connection, and is told of the end of a
/// connection with the error that ended it, whichever it is; the listener is told which
/// client that was.
pub proof fn law_reader_tells_the_program<
    ServerPacket,
    ClientPacket,
    Io,
    SerializerError,
    LengthError,
>(
    connection: EcsServerConnection<ServerPacket>,
    event: ReaderEvent<ClientPacket, Io, SerializerError, LengthError>,
)
    ensures
        ({
            let action = action_for(connection, tasks::report(event));
            match event {
                ReaderEvent::Received(Ok(packet)) => {
                    &&& action matches ReaderAction::Deliver(receiver, delivered)
                    &&& receiver == connection
                    &&& delivered == packet
                },
                ReaderEvent::Received(Err(error)) => {
                    &&& action matches ReaderAction::Disconnect(reason, ended, address)
                    &&& reason == error
                    &&& ended == connection
                    &&& address == connection.peer_addr
                },
                ReaderEvent::DisconnectRequested => {
                    &&& action matches ReaderAction::Disconnect(reason, ended, address)
                    &&& reason is IntentionalDisconnection
                    &&& ended == connection
                    &&& address == connection.peer_addr
                },
            }
        }),
{
}

/// Every client that is accepted is served, and every client that left is forgotten,
/// whatever happened before. The task that listens ends only if waiting for clients and
/// waiting for clients to leave have both failed since either last succeeded.
pub proof fn law_listener_serves_every_client<Stream>(
    state: ListenerState,
    stream: Stream,
    address: SocketAddr,
    event: ListenerEvent<Stream>,
)
    ensures
        state.action(event) == ListenerAction::Serve(stream) <==> event == ListenerEvent::Accepted(
            stream,
        ),
        state.action(event) == ListenerAction::<Stream>::Forget(address) <==> event
            == ListenerEvent::<Stream>::Disconnection(address),
        state.action(event) is Stop <==> {
            ||| event is AcceptFailed && !state.disconnections
            ||| event is Closed && !state.clients
        },
        state.after(event).clients <==> {
            ||| event is Accepted
            ||| event is Disconnection
            ||| event is Closed && state.clients
        },
        state.after(event).disconnections <==> {
            ||| event is Accepted
            ||| event is Disconnection
            ||| event is AcceptFailed && state.disconnections
        },
{
}

/// The list shows every connection that it holds.
pub proof fn law_lists_hide_nothing<ServerPacket>(connections: ServerConnections<ServerPacket>)
    ensures
        connections@ == connections.0@,
{
}

} // verus!
