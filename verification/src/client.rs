//! The client's side: which connections there are, and what the program is told of
//! them.
use crate::address::{first_address, SocketAddr};
use crate::connection;
use crate::connection::{ConnectionCounter, DisconnectTasks, EcsConnection, RawConnection};
use crate::connections;
use crate::protocol::{NetworkStream, ReceiveError};
use crate::tasks;
use crate::tasks::ReaderEvent;
use std::collections::VecDeque;
use tokio::sync::mpsc::UnboundedSender;
use vstd::prelude::*;

verus! {

/// A client's connection to a server.
pub type ClientConnection<ClientPacket> = EcsConnection<ClientPacket>;

/// The connections of a client, the oldest one first.
#[verifier::reject_recursive_types(ClientPacket)]
pub struct ClientConnections<ClientPacket>(pub Vec<ClientConnection<ClientPacket>>);

impl<ClientPacket> View for ClientConnections<ClientPacket> {
    type V = Seq<ClientConnection<ClientPacket>>;

    open spec fn view(&self) -> Seq<ClientConnection<ClientPacket>> {
        self.0@
    }
}

impl<ClientPacket> ClientConnections<ClientPacket> {
    /// No connections.
    pub fn new() -> (connections: Self)
        ensures
            connections@ == Seq::<ClientConnection<ClientPacket>>::empty(),
    {
        ClientConnections(Vec::new())
    }
}

// ---------------------------------------------------------------------------
// The plugin.

/// What the client does at the start. Use [`ClientPlugin::connect`] to connect
/// immediately, or [`ClientPlugin::new`] and a [`ConnectionRequestEvent`] to connect
/// later.
pub struct ClientPlugin {
    address: Option<SocketAddr>,
}

impl Default for ClientPlugin {
    fn default() -> (plugin: Self)
        ensures
            plugin.address() is None,
    {
        ClientPlugin { address: None }
    }
}

impl ClientPlugin {
    /// The server to connect to at the start, if there is one.
    pub closed spec fn address(self) -> Option<SocketAddr> {
        self.address
    }

    /// Doesn't connect immediately.
    pub fn new() -> (plugin: Self)
        ensures
            plugin.address() is None,
    {
        ClientPlugin::default()
    }

    /// Connects immediately, to the first of the addresses that the server's name
    /// was resolved to.
    pub fn connect(resolved: &Vec<SocketAddr>) -> (plugin: Self)
        requires
            resolved@.len() > 0,
        ensures
            plugin.address() == Some(resolved@[0]),
    {
        ClientPlugin { address: first_address(resolved) }
    }

    /// The request to send at the start, if there is one.
    pub fn initial_request(&self) -> (request: Option<ConnectionRequestEvent>)
        ensures
            request is Some <==> self.address() is Some,
            request matches Some(event) ==> Some(event.spec_address()) == self.address(),
    {
        match self.address {
            Some(address) => Some(ConnectionRequestEvent { address }),
            None => None,
        }
    }
}

// ---------------------------------------------------------------------------
// Events.

/// Send this event to connect to a server. A [`ConnectionEstablishEvent`] or a
/// [`DisconnectionEvent`] says what became of it.
#[derive(Debug)]
pub struct ConnectionRequestEvent {
    address: SocketAddr,
}

impl ConnectionRequestEvent {
    /// The server to connect to.
    pub closed spec fn spec_address(self) -> SocketAddr {
        self.address
    }

    /// Creates a new connection request, to the first of the addresses that the
    /// server's name was resolved to.
    pub fn new(resolved: &Vec<SocketAddr>) -> (event: Self)
        requires
            resolved@.len() > 0,
        ensures
            event.spec_address() == resolved@[0],
    {
        ConnectionRequestEvent { address: resolved[0] }
    }

    /// The server to connect to.
    pub fn address(&self) -> (address: SocketAddr)
        ensures
            address == self.spec_address(),
    {
        self.address
    }
}

impl Clone for ConnectionRequestEvent {
    fn clone(&self) -> (event: Self)
        ensures
            event.spec_address() == self.spec_address(),
    {
        ConnectionRequestEvent { address: self.address }
    }
}

/// A connection was successfully established.
#[verifier::reject_recursive_types(ClientPacket)]
pub struct ConnectionEstablishEvent<ClientPacket> {
    /// The server's address.
    pub address: SocketAddr,
    /// The connection.
    pub connection: ClientConnection<ClientPacket>,
}

/// A connection ended, or could not be established.
pub struct DisconnectionEvent<Io, SerializerError, LengthError> {
    /// Why.
    pub error: ReceiveError<Io, SerializerError, LengthError>,
    /// The server's address.
    pub address: SocketAddr,
}

/// A packet was received.
#[verifier::reject_recursive_types(ClientPacket)]
pub struct PacketReceiveEvent<ClientPacket, ServerPacket> {
    /// The connection.
    pub connection: ClientConnection<ClientPacket>,
    /// The packet.
    pub packet: ServerPacket,
}

// ---------------------------------------------------------------------------
// The systems.

/// What becomes of the connection that the program finds as the current one.
pub enum CurrentConnection<Connection> {
    /// It stays, or there is still none.
    Unchanged,
    /// There is none.
    Removed,
    /// It is this one.
    Replaced(Connection),
}

impl<Connection> CurrentConnection<Connection> {
    /// The current connection after the change, where it was `before` until then.
    pub open spec fn applied(self, before: Option<Connection>) -> Option<Connection> {
        match self {
            CurrentConnection::Unchanged => before,
            CurrentConnection::Removed => None,
            CurrentConnection::Replaced(connection) => Some(connection),
        }
    }
}

/// The addresses to connect to, in the order of the requests.
pub fn connection_request_system(events: &Vec<ConnectionRequestEvent>) -> (addresses: Vec<
    SocketAddr,
>)
    ensures
        addresses@ == events@.map_values(|event: ConnectionRequestEvent| event.spec_address()),
{
    let mut addresses: Vec<SocketAddr> = Vec::new();
    for i in 0..events.len()
        invariant
            addresses@ == events@.take(i as int).map_values(
                |event: ConnectionRequestEvent| event.spec_address(),
            ),
    {
        addresses.push(events[i].address());
        assert(addresses@ =~= events@.take(i + 1).map_values(
            |event: ConnectionRequestEvent| event.spec_address(),
        ));
    }
    assert(events@.take(events@.len() as int) =~= events@);
    addresses
}

/// Takes the packets that were received, and makes an event of each, in their order.
pub fn packet_receive_system<ClientPacket, ServerPacket>(
    packets: &mut VecDeque<(ClientConnection<ClientPacket>, ServerPacket)>,
) -> (events: Vec<PacketReceiveEvent<ClientPacket, ServerPacket>>)
    ensures
        final(packets)@.len() == 0,
        events@ == old(packets)@.map_values(
            |received: (ClientConnection<ClientPacket>, ServerPacket)|
                (PacketReceiveEvent { connection: received.0, packet: received.1 }),
        ),
{
    let mut events: Vec<PacketReceiveEvent<ClientPacket, ServerPacket>> = Vec::new();
    let ghost all = packets@;
    while packets.len() > 0
        invariant
            events@.len() + packets@.len() == all.len(),
            packets@ == all.skip(events@.len() as int),
            forall|i: int| 0 <= i < events@.len() ==> #[trigger] events@[i] == (
            PacketReceiveEvent { connection: all[i].0, packet: all[i].1 }),
        decreases packets@.len(),
    {
        match packets.pop_front() {
            Some((connection, packet)) => events.push(PacketReceiveEvent { connection, packet }),
            None => {},
        }
    }
    events
}

/// The connections that were established.
pub open spec fn new_connections_of<ClientPacket>(
    new_connections: Seq<(SocketAddr, ClientConnection<ClientPacket>)>,
) -> Seq<ClientConnection<ClientPacket>> {
    new_connections.map_values(|new: (SocketAddr, ClientConnection<ClientPacket>)| new.1)
}

/// What becomes of the current connection where `new` connections were established:
/// it is the last of them.
pub open spec fn current_after_establishing<ClientPacket>(
    new: Seq<ClientConnection<ClientPacket>>,
) -> CurrentConnection<ClientConnection<ClientPacket>> {
    if new.len() == 0 {
        CurrentConnection::Unchanged
    } else {
        CurrentConnection::Replaced(new.last())
    }
}

/// Takes the connections that were established, adds them to `connections`, and makes
/// an event of each, in their order. The last one becomes the current one.
pub fn connection_establish_system<ClientPacket>(
    new_connections: &mut VecDeque<(SocketAddr, ClientConnection<ClientPacket>)>,
    connections: &mut ClientConnections<ClientPacket>,
) -> (result: (
    CurrentConnection<ClientConnection<ClientPacket>>,
    Vec<ConnectionEstablishEvent<ClientPacket>>,
))
    ensures
        final(new_connections)@.len() == 0,
        final(connections)@ == old(connections)@ + new_connections_of(old(new_connections)@),
        result.0 == current_after_establishing(new_connections_of(old(new_connections)@)),
        result.1@ == old(new_connections)@.map_values(
            |new: (SocketAddr, ClientConnection<ClientPacket>)|
                (ConnectionEstablishEvent { address: new.0, connection: new.1 }),
        ),
{
    let mut current: CurrentConnection<ClientConnection<ClientPacket>> =
        CurrentConnection::Unchanged;
    let mut events: Vec<ConnectionEstablishEvent<ClientPacket>> = Vec::new();
    let ghost all = new_connections@;
    let ghost before = connections@;
    assert(before + new_connections_of(all).take(0) =~= before);
    while new_connections.len() > 0
        invariant
            events@.len() + new_connections@.len() == all.len(),
            new_connections@ == all.skip(events@.len() as int),
            forall|i: int| 0 <= i < events@.len() ==> #[trigger] events@[i] == (
            ConnectionEstablishEvent { address: all[i].0, connection: all[i].1 }),
            connections@ == before + new_connections_of(all).take(events@.len() as int),
            current == current_after_establishing(
                new_connections_of(all).take(events@.len() as int),
            ),
        decreases new_connections@.len(),
    {
        match new_connections.pop_front() {
            Some((address, connection)) => {
                current = CurrentConnection::Replaced(connection.clone());
                connections.0.push(connection.clone());
                assert(connections@ =~= before + new_connections_of(all).take(events@.len() as int + 1));
                events.push(ConnectionEstablishEvent { address, connection });
            },
            None => {},
        }
    }
    assert(new_connections_of(all).take(all.len() as int) =~= new_connections_of(all));
    (current, events)
}

/// The addresses of connections that ended.
pub open spec fn ended_addresses<Io, SerializerError, LengthError>(
    old_connections: Seq<(ReceiveError<Io, SerializerError, LengthError>, SocketAddr)>,
) -> Seq<SocketAddr> {
    old_connections.map_values(
        |ended: (ReceiveError<Io, SerializerError, LengthError>, SocketAddr)| ended.1,
    )
}

/// What becomes of the current connection where those to `addresses` ended and `left`
/// are left: it is the last of these.
pub open spec fn current_after_removal<ClientPacket>(
    addresses: Seq<SocketAddr>,
    left: Seq<ClientConnection<ClientPacket>>,
) -> CurrentConnection<ClientConnection<ClientPacket>> {
    if addresses.len() == 0 {
        CurrentConnection::Unchanged
    } else if left.len() == 0 {
        CurrentConnection::Removed
    } else {
        CurrentConnection::Replaced(left.last())
    }
}

/// Takes the connections that ended, removes them from `connections`, and makes an
/// event of each, in their order. The youngest connection that is left becomes the
/// current one.
pub fn connection_remove_system<ClientPacket, Io, SerializerError, LengthError>(
    old_connections: &mut VecDeque<(ReceiveError<Io, SerializerError, LengthError>, SocketAddr)>,
    connections: &mut ClientConnections<ClientPacket>,
) -> (result: (
    CurrentConnection<ClientConnection<ClientPacket>>,
    Vec<DisconnectionEvent<Io, SerializerError, LengthError>>,
))
    ensures
        final(old_connections)@.len() == 0,
        final(connections)@ == connections::without(
            old(connections)@,
            ended_addresses(old(old_connections)@),
        ),
        result.0 == current_after_removal(
            ended_addresses(old(old_connections)@),
            final(connections)@,
        ),
        result.1@ == old(old_connections)@.map_values(
            |ended: (ReceiveError<Io, SerializerError, LengthError>, SocketAddr)|
                (DisconnectionEvent { error: ended.0, address: ended.1 }),
        ),
{
    let mut current: CurrentConnection<ClientConnection<ClientPacket>> =
        CurrentConnection::Unchanged;
    let mut events: Vec<DisconnectionEvent<Io, SerializerError, LengthError>> = Vec::new();
    let ghost all = old_connections@;
    let ghost before = connections@;
    proof {
        connections::law_nothing_else_is_removed(before, ended_addresses(all).take(0));
    }
    while old_connections.len() > 0
        invariant
            events@.len() + old_connections@.len() == all.len(),
            old_connections@ == all.skip(events@.len() as int),
            forall|i: int| 0 <= i < events@.len() ==> #[trigger] events@[i] == (
            DisconnectionEvent { error: all[i].0, address: all[i].1 }),
            connections@ == connections::without(
                before,
                ended_addresses(all).take(events@.len() as int),
            ),
            current == current_after_removal(
                ended_addresses(all).take(events@.len() as int),
                connections@,
            ),
        decreases old_connections@.len(),
    {
        match old_connections.pop_front() {
            Some((error, address)) => {
                proof {
                    let done = ended_addresses(all).take(events@.len() as int);
                    connections::law_removals_add_up(before, done, address);
                    assert(done.push(address) =~= ended_addresses(all).take(events@.len() as int + 1));
                }
                connections::remove(&mut connections.0, address);
                if connections.0.len() == 0 {
                    current = CurrentConnection::Removed;
                } else {
                    let last: usize = connections.0.len() - 1;
                    current = CurrentConnection::Replaced(connections.0[last].clone());
                }
                events.push(DisconnectionEvent { error, address });
            },
            None => {},
        }
    }
    assert(ended_addresses(all).take(all.len() as int) =~= ended_addresses(all));
    (current, events)
}

/// Whether the current connection is the youngest one, and there is one as long as
/// there are connections.
pub open spec fn current_is_last<ClientPacket>(
    connections: Seq<ClientConnection<ClientPacket>>,
    current: Option<ClientConnection<ClientPacket>>,
) -> bool {
    current == if connections.len() == 0 {
        None
    } else {
        Some(connections.last())
    }
}

/// The current connection is always the youngest one, whatever connections are
/// established and removed.
pub proof fn law_current_connection_is_the_last<ClientPacket>(
    connections: Seq<ClientConnection<ClientPacket>>,
    current: Option<ClientConnection<ClientPacket>>,
    new: Seq<ClientConnection<ClientPacket>>,
    ended: Seq<SocketAddr>,
)
    requires
        current_is_last(connections, current),
    ensures
        current_is_last(connections + new, current_after_establishing(new).applied(current)),
        current_is_last(
            connections::without(connections, ended),
            current_after_removal(ended, connections::without(connections, ended)).applied(
                current,
            ),
        ),
{
    if new.len() == 0 {
        assert(connections + new =~= connections);
    }
    if ended.len() == 0 {
        connections::law_nothing_else_is_removed(connections, ended);
    }
}

// ---------------------------------------------------------------------------
// The tasks.

/// The connection over a stream that was `connected`, or the error.
pub fn create_connection<Stream, Serializer, LengthSerializer, Packets, Io>(
    connected: Result<Stream, Io>,
    serializer: Serializer,
    packet_length_serializer: LengthSerializer,
    packet_rx: Packets,
    counter: &mut ConnectionCounter,
    tasks: &mut DisconnectTasks,
) -> (result: Result<RawConnection<Stream, Serializer, LengthSerializer, Packets>, Io>)
    requires
        old(tasks)@.created < u64::MAX,
    ensures
        match connected {
            Ok(stream) => {
                &&& result is Ok
                &&& result->Ok_0.disconnect_task.number() == old(tasks)@.created
                &&& final(tasks)@ == old(tasks)@.after_create()
                &&& result->Ok_0.stream == stream
                &&& result->Ok_0.serializer == serializer
                &&& result->Ok_0.packet_length_serializer == packet_length_serializer
                &&& result->Ok_0.packets_rx == packet_rx
                &&& result->Ok_0.id.number() == old(counter).count()
                &&& final(counter).count() == connection::count_after(old(counter).count(), 1)
            },
            Err(error) => {
                &&& result is Err
                &&& result->Err_0 == error
                &&& final(counter).count() == old(counter).count()
                &&& final(tasks)@ == old(tasks)@
            },
        },
{
    match connected {
        Ok(stream) => Ok(
            RawConnection::new(
                stream,
                serializer,
                packet_length_serializer,
                packet_rx,
                counter,
                tasks,
            ),
        ),
        Err(error) => Err(error),
    }
}

/// What came of an attempt to connect to a server.
#[verifier::reject_recursive_types(ClientPacket)]
pub enum ConnectionAttempt<
    ClientPacket,
    Stream,
    Serializer,
    LengthSerializer,
    Packets,
    Io,
    SerializerError,
    LengthError,
> {
    /// There is a connection.
    Established {
        /// What the program is told: the address it asked for, and its side of the
        /// connection.
        announced: (SocketAddr, ClientConnection<ClientPacket>),
        /// What the tasks that serve the connection get: both sides of it.
        served: (
            RawConnection<Stream, Serializer, LengthSerializer, Packets>,
            ClientConnection<ClientPacket>,
        ),
    },
    /// There is none. The program is told why, and the address it asked for.
    Failed(ReceiveError<Io, SerializerError, LengthError>, SocketAddr),
}

/// What is to be done after an attempt to connect to `address` gave `connected`.
/// `packet_tx` and `packet_rx` are the two ends of the channel for the packets to be
/// sent.
pub fn connection_attempt<
    ClientPacket,
    Stream: NetworkStream,
    Serializer,
    LengthSerializer,
    Packets,
    Io,
    SerializerError,
    LengthError,
>(
    address: SocketAddr,
    connected: Result<Stream, Io>,
    serializer: Serializer,
    packet_length_serializer: LengthSerializer,
    packet_tx: UnboundedSender<ClientPacket>,
    packet_rx: Packets,
    counter: &mut ConnectionCounter,
    tasks: &mut DisconnectTasks,
) -> (attempt: ConnectionAttempt<
    ClientPacket,
    Stream,
    Serializer,
    LengthSerializer,
    Packets,
    Io,
    SerializerError,
    LengthError,
>)
    requires
        old(tasks)@.created < u64::MAX,
    ensures
        match connected {
            Ok(stream) => {
                &&& attempt matches ConnectionAttempt::Established { announced, served }
                &&& announced == (address, served.0.spec_ecs_side(packet_tx))
                &&& served.1 == served.0.spec_ecs_side(packet_tx)
                &&& served.0.disconnect_task.number() == old(tasks)@.created
                &&& final(tasks)@ == old(tasks)@.after_create()
                &&& served.0.stream == stream
                &&& served.0.serializer == serializer
                &&& served.0.packet_length_serializer == packet_length_serializer
                &&& served.0.packets_rx == packet_rx
                &&& served.0.id.number() == old(counter).count()
                &&& final(counter).count() == connection::count_after(old(counter).count(), 1)
            },
            Err(error) => {
                &&& attempt matches ConnectionAttempt::Failed(reason, asked)
                &&& reason == ReceiveError::<Io, SerializerError, LengthError>::NoConnection(error)
                &&& asked == address
                &&& final(counter).count() == old(counter).count()
                &&& final(tasks)@ == old(tasks)@
            },
        },
{
    match create_connection(
        connected,
        serializer,
        packet_length_serializer,
        packet_rx,
        counter,
        tasks,
    ) {
        Ok(raw) => {
            let ecs: ClientConnection<ClientPacket> = raw.ecs_side(packet_tx);
            ConnectionAttempt::Established { announced: (address, ecs.clone()), served: (raw, ecs) }
        },
        Err(error) => ConnectionAttempt::Failed(ReceiveError::NoConnection(error), address),
    }
}

/// What the task that reads from a connection does.
#[verifier::reject_recursive_types(ClientPacket)]
pub enum ReaderAction<ClientPacket, ServerPacket, Io, SerializerError, LengthError> {
    /// Give the program a packet.
    Deliver(ClientConnection<ClientPacket>, ServerPacket),
    /// Tell the program that the connection to a server ended.
    Disconnect(ReceiveError<Io, SerializerError, LengthError>, SocketAddr),
}

/// What tells the program of what `report` says of `connection`, whose peer is at
/// `peer_addr`.
pub open spec fn action_for<ClientPacket, ServerPacket, Io, SerializerError, LengthError>(
    connection: ClientConnection<ClientPacket>,
    peer_addr: SocketAddr,
    report: tasks::Report<ServerPacket, Io, SerializerError, LengthError>,
) -> ReaderAction<ClientPacket, ServerPacket, Io, SerializerError, LengthError> {
    match report {
        tasks::Report::Packet(packet) => ReaderAction::Deliver(connection, packet),
        tasks::Report::End(error) => ReaderAction::Disconnect(error, peer_addr),
    }
}

/// What the task that reads from `connection`, whose peer is at `peer_addr`, does
/// after `event`. A connection that ended is closed, so that nothing is sent over it
/// any more.
pub fn reader_step<ClientPacket, ServerPacket, Io, SerializerError, LengthError>(
    connection: &ClientConnection<ClientPacket>,
    peer_addr: SocketAddr,
    event: ReaderEvent<ServerPacket, Io, SerializerError, LengthError>,
    tasks: &mut DisconnectTasks,
) -> (action: ReaderAction<ClientPacket, ServerPacket, Io, SerializerError, LengthError>)
    ensures
        action == action_for(*connection, peer_addr, tasks::report(event)),
        final(tasks)@ == tasks::states_after(old(tasks)@, connection.disconnect_task, event),
{
    match event {
        ReaderEvent::Received(Ok(packet)) => ReaderAction::Deliver(connection.clone(), packet),
        ReaderEvent::Received(Err(error)) => {
            connection.disconnect(tasks);
            ReaderAction::Disconnect(error, peer_addr)
        },
        ReaderEvent::DisconnectRequested => {
            connection.disconnect(tasks);
            ReaderAction::Disconnect(ReceiveError::IntentionalDisconnection, peer_addr)
        },
    }
}

/// Whether the task that reads from a connection goes on: `delivered` says whether its
/// last action was to deliver a packet, `taken` whether the program still listens.
pub fn reader_goes_on(delivered: bool, taken: bool) -> (goes_on: bool)
    ensures
        goes_on == (delivered && taken),
{
    delivered && taken
}

/// Every connection that was established is added, at the end and in order, whatever its
/// addresses are: the list grows by as many connections as there were, and those that
/// were in it stay in their places.
pub proof fn law_every_new_connection_is_listed<ClientPacket>(
    connections: Seq<ClientConnection<ClientPacket>>,
    new_connections: Seq<(SocketAddr, ClientConnection<ClientPacket>)>,
)
    ensures
        ({
            let listed = connections + new_connections_of(new_connections);
            &&& listed.len() == connections.len() + new_connections.len()
            &&& forall|i: int| 0 <= i < connections.len() ==> #[trigger] listed[i] == connections[i]
            &&& forall|i: int|
                0 <= i < new_connections.len() ==> listed[connections.len() + i]
                    == (#[trigger] new_connections[i]).1
        }),
{
}

/// Exactly the connections to a server go of which it was reported that the connection
/// ended; every other one stays.
pub proof fn law_connections_to_ended_servers_go<
    ClientPacket,
    Io,
    SerializerError,
    LengthError,
>(
    connections: Seq<ClientConnection<ClientPacket>>,
    old_connections: Seq<(ReceiveError<Io, SerializerError, LengthError>, SocketAddr)>,
    connection: ClientConnection<ClientPacket>,
)
    ensures
        connections::without(connections, ended_addresses(old_connections)).contains(connection)
            <==> connections.contains(connection) && forall|i: int|
            0 <= i < old_connections.len() ==> (#[trigger] old_connections[i]).1
                != connection.peer_addr,
{
    let addresses = ended_addresses(old_connections);
    connections::law_exactly_the_ended_connections_go(connections, addresses, connection);
    assert forall|i: int| 0 <= i < old_connections.len() implies addresses.contains(
        (#[trigger] old_connections[i]).1,
    ) by {
        assert(addresses[i] == old_connections[i].1);
    }
    if addresses.contains(connection.peer_addr) {
        let i = choose|i: int| 0 <= i < addresses.len() && addresses[i] == connection.peer_addr;
        assert(old_connections[i].1 == connection.peer_addr);
    }
}

/// The current connection changes only when connections come or go. It becomes the
/// last one that came, or the last one that is left, and there is none only if none is
/// left.
pub proof fn law_current_connection_follows_the_list<ClientPacket>(
    before: Option<ClientConnection<ClientPacket>>,
    new: Seq<ClientConnection<ClientPacket>>,
    ended: Seq<SocketAddr>,
    left: Seq<ClientConnection<ClientPacket>>,
)
    ensures
        new.len() == 0 ==> current_after_establishing(new).applied(before) == before,
        new.len() > 0 ==> current_after_establishing(new).applied(before) == Some(
            new[new.len() - 1],
        ),
        ended.len() == 0 ==> current_after_removal(ended, left).applied(before) == before,
        ended.len() > 0 && left.len() == 0 ==> current_after_removal(ended, left).applied(before)
            is None,
        ended.len() > 0 && left.len() > 0 ==> current_after_removal(ended, left).applied(before)
            == Some(left[left.len() - 1]),
{
}

/// The program gets every packet with its connection, and is told of the end of a
/// connection with the error that ended it, whichever it is, and the server's address.
pub proof fn law_reader_tells_the_program<
    ClientPacket,
    ServerPacket,
    Io,
    SerializerError,
    LengthError,
>(
    connection: ClientConnection<ClientPacket>,
    peer_addr: SocketAddr,
    event: ReaderEvent<ServerPacket, Io, SerializerError, LengthError>,
)
    ensures
        ({
            let action = action_for(connection, peer_addr, tasks::report(event));
            match event {
                ReaderEvent::Received(Ok(packet)) => {
                    &&& action matches ReaderAction::Deliver(receiver, delivered)
                    &&& receiver == connection
                    &&& delivered == packet
                },
                ReaderEvent::Received(Err(error)) => {
                    &&& action matches ReaderAction::Disconnect(reason, address)
                    &&& reason == error
                    &&& address == peer_addr
                },
                ReaderEvent::DisconnectRequested => {
                    &&& action matches ReaderAction::Disconnect(reason, address)
                    &&& reason is IntentionalDisconnection
                    &&& address == peer_addr
                },
            }
        }),
{
}

/// The list shows every connection that it holds.
pub proof fn law_lists_hide_nothing<ClientPacket>(connections: ClientConnections<ClientPacket>)
    ensures
        connections@ == connections.0@,
{
}

} // verus!
