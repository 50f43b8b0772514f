//! What the client's and the server's side of a connection have in common.
use crate::address::SocketAddr;
use crate::protocol::NetworkStream;
use crate::text;
use std::collections::HashMap;
use tokio::sync::mpsc::UnboundedSender;
use vstd::prelude::*;

verus! {

broadcast use vstd::std_specs::hash::group_hash_axioms;

// ---------------------------------------------------------------------------
// Connection ids.

/// Tells the connections of one process apart. It is only meant to be used
/// locally: the two ends of a connection have different ids, and the count starts
/// again with every start of the program. Its text is [`ConnectionId::debug_text`].
#[derive(Copy, Clone, PartialEq, Eq, PartialOrd, Ord, Hash, Structural)]
pub struct ConnectionId(usize);

/// The count that connection ids are drawn from. All clients and servers of a
/// process share one.
#[derive(Debug)]
pub struct ConnectionCounter(usize);

/// The count after `draws` further ids were drawn from it; it starts again from
/// zero after the largest `usize`.
pub open spec fn count_after(count: usize, draws: nat) -> usize {
    ((count + draws) % (usize::MAX + 1)) as usize
}

impl ConnectionCounter {
    /// The number of the id that is drawn next.
    pub closed spec fn count(self) -> usize {
        self.0
    }

    /// A count from which no id was drawn yet.
    pub fn new() -> (counter: Self)
        ensures
            counter.count() == 0,
    {
        ConnectionCounter(0)
    }
}

impl ConnectionId {
    /// The number that makes the id.
    pub closed spec fn number(self) -> usize {
        self.0
    }

    /// Creates and returns a new id, which no id drawn from `counter` before is
    /// equal to, unless more were drawn than there are numbers.
    pub fn next(counter: &mut ConnectionCounter) -> (id: ConnectionId)
        ensures
            id.number() == old(counter).count(),
            final(counter).count() == count_after(old(counter).count(), 1),
    {
        proof {
            let modulus = (usize::MAX + 1) as nat;
            if counter.0 < usize::MAX {
                vstd::arithmetic::div_mod::lemma_small_mod((counter.0 + 1) as nat, modulus);
            } else {
                vstd::arithmetic::div_mod::lemma_mod_self_0(modulus as int);
            }
        }
        let id: ConnectionId = ConnectionId(counter.0);
        counter.0 = counter.0.wrapping_add(1);
        id
    }

    /// The id as a text for people: `#` and the number.
    pub fn debug_text(&self) -> (debug: String)
        ensures
            debug@ == "#"@ + text::decimal(self.number() as nat),
    {
        let mut debug: String = String::new();
        debug.append("#");
        text::append_decimal(&mut debug, self.0);
        debug
    }
}

/// Ids are unique: two ids drawn from one count are different, as long as no more
/// ids were drawn from the first to the second than there are numbers.
pub proof fn law_ids_are_unique(
    start: usize,
    earlier: nat,
    later: nat,
    one: ConnectionId,
    other: ConnectionId,
)
    requires
        earlier < later <= earlier + usize::MAX,
        one.number() == count_after(start, earlier),
        other.number() == count_after(start, later),
    ensures
        one != other,
{
    let modulus = usize::MAX + 1;
    let low = start + earlier;
    let high = start + later;
    if low % modulus == high % modulus {
        vstd::arithmetic::div_mod::lemma_fundamental_div_mod(low, modulus);
        vstd::arithmetic::div_mod::lemma_fundamental_div_mod(high, modulus);
        let steps = high / modulus - low / modulus;
        assert(high - low == modulus * steps) by (nonlinear_arith)
            requires
                low == modulus * (low / modulus) + low % modulus,
                high == modulus * (high / modulus) + high % modulus,
                low % modulus == high % modulus,
                steps == high / modulus - low / modulus,
        ;
        assert(steps <= 0 || modulus * steps >= modulus) by (nonlinear_arith)
            requires
                modulus > 0,
        ;
        assert(steps > 0 || modulus * steps <= 0) by (nonlinear_arith)
            requires
                modulus > 0,
        ;
    }
}

// ---------------------------------------------------------------------------
// The limit on the size of packets.

/// The largest packet that is received, in bytes. Set it, so that a peer that
/// announces a huge packet does not make the program allocate a buffer of that
/// size.
#[derive(Copy, Clone, Debug, PartialEq, Eq, Structural)]
pub struct MaxPacketSize(pub usize);

impl MaxPacketSize {
    /// The limit that holds as long as no other one is set: none.
    pub fn unlimited() -> (limit: Self)
        ensures
            limit.0 == usize::MAX,
    {
        MaxPacketSize(usize::MAX)
    }
}

/// The limit that holds from now on, where `current` held until now: the one in
/// `resource`, if there is one and it was `changed`.
pub fn set_max_packet_size_system(
    current: MaxPacketSize,
    resource: Option<MaxPacketSize>,
    changed: bool,
) -> (limit: MaxPacketSize)
    ensures
        limit == (match resource {
            Some(set) => if changed {
                set
            } else {
                current
            },
            None => current,
        }),
{
    match resource {
        Some(set) => if changed {
            set
        } else {
            current
        },
        None => current,
    }
}

/// The warning to give at the start: there is one where no limit is set.
pub fn max_packet_size_warning_system(resource: Option<MaxPacketSize>) -> (warning: Option<
    String,
>)
    ensures
        warning is Some <==> resource is None,
        warning matches Some(message) ==> message@
            == "You haven't set \"MaxPacketSize\" resource! This is a security risk, please insert it before using this in production."@,
{
    match resource {
        Some(_) => None,
        None => {
            let mut message: String = String::new();
            message.append(
                "You haven't set \"MaxPacketSize\" resource! This is a security risk, please insert it before using this in production.",
            );
            Some(message)
        },
    }
}

// ---------------------------------------------------------------------------
// Closing a connection on purpose.

/// Whether something that was asked for has happened.
#[derive(Copy, Clone, Debug, PartialEq, Eq, Structural)]
pub enum Readiness {
    /// It has.
    Ready,
    /// It has not; whoever asked is woken up when it has.
    Pending,
}

/// A handle to the request to close a connection. Both sides of the connection have
/// one, and every clone of one stands for the same request.
#[derive(Copy, Clone, Debug, PartialEq, Eq, Structural)]
pub struct DisconnectTask(u64);

impl DisconnectTask {
    /// The number by which the request is found.
    pub closed spec fn number(self) -> u64 {
        self.0
    }
}

/// The requests to close of all connections. `open` holds those that were not made
/// yet, and says of each whether somebody waits for it; `created` is how many handles
/// there are.
pub ghost struct TaskStates {
    pub open: Map<u64, bool>,
    pub created: nat,
}

impl TaskStates {
    /// No request is there before a handle to it.
    pub open spec fn wf(self) -> bool {
        forall|number: u64| #[trigger] self.open.contains_key(number) ==> number < self.created
    }

    /// Whether the handle was created.
    pub open spec fn knows(self, task: DisconnectTask) -> bool {
        task.number() < self.created
    }

    /// Whether the connection was asked to close.
    pub open spec fn requested(self, task: DisconnectTask) -> bool {
        !self.open.contains_key(task.number())
    }

    /// Whether somebody waits for the connection to be asked to close.
    pub open spec fn awaited(self, task: DisconnectTask) -> bool {
        self.open.contains_key(task.number()) && self.open[task.number()]
    }

    /// After a handle for a new connection was created.
    pub open spec fn after_create(self) -> TaskStates {
        TaskStates {
            open: self.open.insert(self.created as u64, false),
            created: self.created + 1,
        }
    }

    /// After the connection was asked to close.
    pub open spec fn after_disconnect(self, task: DisconnectTask) -> TaskStates {
        TaskStates { open: self.open.remove(task.number()), created: self.created }
    }

    /// After somebody asked whether the connection is to close: where it is not, they
    /// wait from then on.
    pub open spec fn after_poll(self, task: DisconnectTask) -> TaskStates {
        if self.requested(task) {
            self
        } else {
            TaskStates { open: self.open.insert(task.number(), true), created: self.created }
        }
    }
}

/// The requests to close of all connections of a process.
#[derive(Debug)]
pub struct DisconnectTasks {
    waiting: HashMap<u64, bool>,
    created: u64,
}

impl View for DisconnectTasks {
    type V = TaskStates;

    closed spec fn view(&self) -> TaskStates {
        TaskStates { open: self.waiting@, created: self.created as nat }
    }
}

impl DisconnectTasks {
    /// No connections.
    pub fn new() -> (tasks: Self)
        ensures
            tasks@.open == Map::<u64, bool>::empty(),
            tasks@.created == 0,
            tasks@.wf(),
    {
        DisconnectTasks { waiting: HashMap::new(), created: 0 }
    }

    /// Whether there is a number left for another connection.
    pub fn can_create(&self) -> (can: bool)
        ensures
            can == (self@.created < u64::MAX),
    {
        self.created < u64::MAX
    }

    /// Creates the handle of a new connection, which nobody asked to close.
    pub fn create(&mut self) -> (task: DisconnectTask)
        requires
            old(self)@.created < u64::MAX,
        ensures
            task.number() == old(self)@.created,
            final(self)@ == old(self)@.after_create(),
    {
        let number: u64 = self.created;
        self.waiting.insert(number, false);
        self.created = number + 1;
        DisconnectTask(number)
    }

    /// Whether the connection was asked to close.
    pub fn requested(&self, task: DisconnectTask) -> (requested: bool)
        ensures
            requested == self@.requested(task),
    {
        !self.waiting.contains_key(&task.0)
    }

    /// Asks the connection to close. Says whether there is somebody to wake up.
    pub fn disconnect(&mut self, task: DisconnectTask) -> (wake: bool)
        ensures
            wake == old(self)@.awaited(task),
            final(self)@ == old(self)@.after_disconnect(task),
    {
        match self.waiting.remove(&task.0) {
            Some(awaited) => awaited,
            None => {
                assert(self.waiting@ =~= old(self).waiting@);
                false
            },
        }
    }

    /// Asks whether the connection is to close. Whoever gets [`Readiness::Pending`]
    /// waits from now on.
    pub fn poll(&mut self, task: DisconnectTask) -> (readiness: Readiness)
        ensures
            readiness == if old(self)@.requested(task) {
                Readiness::Ready
            } else {
                Readiness::Pending
            },
            final(self)@ == old(self)@.after_poll(task),
    {
        if self.requested(task) {
            Readiness::Ready
        } else {
            self.waiting.insert(task.0, true);
            Readiness::Pending
        }
    }
}

/// Something that happens to the requests to close.
pub ghost enum TaskEvent {
    Create,
    Disconnect(DisconnectTask),
    Poll(DisconnectTask),
}

impl TaskStates {
    /// After `event`.
    pub open spec fn after(self, event: TaskEvent) -> TaskStates {
        match event {
            TaskEvent::Create => self.after_create(),
            TaskEvent::Disconnect(task) => self.after_disconnect(task),
            TaskEvent::Poll(task) => self.after_poll(task),
        }
    }

    /// After all of `events`, the first one first.
    pub open spec fn after_all(self, events: Seq<TaskEvent>) -> TaskStates
        decreases events.len(),
    {
        if events.len() == 0 {
            self
        } else {
            self.after(events[0]).after_all(events.skip(1))
        }
    }
}

/// A connection is to close if and only if it was asked to, through any handle to its
/// request: through a clone as well as through the handle itself, however often, and
/// for good. Whatever happens to the requests of other connections does not matter.
pub proof fn law_requests_reach_every_handle(
    states: TaskStates,
    events: Seq<TaskEvent>,
    task: DisconnectTask,
    copy: DisconnectTask,
)
    requires
        states.wf(),
        states.created + events.len() <= u64::MAX,
        states.knows(task),
        cloned(task, copy),
    ensures
        states.after_all(events).wf(),
        states.after_all(events).requested(task) <==> states.requested(task) || events.contains(
            TaskEvent::Disconnect(copy),
        ),
    decreases events.len(),
{
    if events.len() > 0 {
        let event = events[0];
        law_requests_reach_every_handle(states.after(event), events.skip(1), task, copy);
        let asked = TaskEvent::Disconnect(copy);
        assert(events.contains(asked) <==> event == asked || events.skip(1).contains(asked)) by {
            if events.contains(asked) && event != asked {
                let i = choose|i: int| 0 <= i < events.len() && events[i] == asked;
                assert(events.skip(1)[i - 1] == asked);
            }
            if events.skip(1).contains(asked) {
                let i = choose|i: int| 0 <= i < events.len() - 1 && events.skip(1)[i] == asked;
                assert(events[i + 1] == asked);
            }
        }
    }
}

/// No request to close is lost: whoever was told to wait is woken up by the next
/// request, through whichever handle it is made and whatever happens in between.
pub proof fn law_waiting_tasks_are_woken(
    states: TaskStates,
    events: Seq<TaskEvent>,
    task: DisconnectTask,
    copy: DisconnectTask,
)
    requires
        states.wf(),
        states.created + events.len() <= u64::MAX,
        states.knows(task),
        !states.requested(task),
        cloned(task, copy),
        !events.contains(TaskEvent::Disconnect(task)),
    ensures
        states.after_poll(task).after_all(events).awaited(copy),
{
    lemma_waiting_lasts(states.after_poll(task), events, task);
}

proof fn lemma_waiting_lasts(states: TaskStates, events: Seq<TaskEvent>, task: DisconnectTask)
    requires
        states.wf(),
        states.created + events.len() <= u64::MAX,
        states.awaited(task),
        !events.contains(TaskEvent::Disconnect(task)),
    ensures
        states.after_all(events).awaited(task),
    decreases events.len(),
{
    if events.len() > 0 {
        assert(events[0] != TaskEvent::Disconnect(task));
        assert forall|i: int| 0 <= i < events.len() - 1 implies #[trigger] events.skip(1)[i]
            != TaskEvent::Disconnect(task) by {
            assert(events.skip(1)[i] == events[i + 1]);
        }
        lemma_waiting_lasts(states.after(events[0]), events.skip(1), task);
    }
}

// ---------------------------------------------------------------------------
// The two sides of a connection.

#[verifier::external_type_specification]
#[verifier::external_body]
#[verifier::reject_recursive_types(T)]
pub struct ExUnboundedSender<T>(tokio::sync::mpsc::UnboundedSender<T>);

/// `UnboundedSender::send`. Whether the packet is taken depends on whether the
/// task at the other end still runs, so nothing is said of that; a packet that is
/// not taken comes back as it was.
#[verifier::external_body]
fn channel_send<P>(sender: &UnboundedSender<P>, packet: P) -> (result: Result<(), P>)
    ensures
        result matches Err(returned) ==> returned == packet,
{
    sender.send(packet).map_err(|error| error.0)
}

/// `UnboundedSender::clone`: another handle to the same channel.
#[verifier::external_body]
fn channel_clone<P>(sender: &UnboundedSender<P>) -> (result: UnboundedSender<P>)
    ensures
        result == *sender,
{
    sender.clone()
}

/// A packet that could not be sent because the connection is closed.
#[derive(Debug, PartialEq, Eq)]
pub struct SendError<P>(pub P);

/// Whether `reply` is what handing `packet` over to the channel of `sender` may give:
/// `Ok` where the channel took it, `Err` with the packet where it did not.
pub closed spec fn channel_may_reply<P>(
    sender: UnboundedSender<P>,
    packet: P,
    reply: Result<(), P>,
) -> bool {
    call_ensures(channel_send::<P>, (&sender, packet), reply)
}

/// What sending a packet comes to where the channel gave `reply`.
pub open spec fn spec_send_result<P>(reply: Result<(), P>) -> Result<(), SendError<P>> {
    match reply {
        Ok(()) => Ok(()),
        Err(returned) => Err(SendError(returned)),
    }
}

/// What sending a packet comes to where the channel gave `reply`: it was sent, or it
/// comes back.
pub fn send_result<P>(reply: Result<(), P>) -> (result: Result<(), SendError<P>>)
    ensures
        result == spec_send_result(reply),
{
    match reply {
        Ok(()) => Ok(()),
        Err(returned) => Err(SendError(returned)),
    }
}

/// The side of a connection that the program works with. It can be cloned cheaply
/// and reaches the stream, which belongs to another task, through a channel.
#[verifier::reject_recursive_types(SendingPacket)]
pub struct EcsConnection<SendingPacket> {
    /// The handle by which the connection is closed.
    pub disconnect_task: DisconnectTask,
    /// The connection's id.
    pub id: ConnectionId,
    /// Where packets to be sent go.
    pub packet_tx: UnboundedSender<SendingPacket>,
    /// The address of the local half.
    pub local_addr: SocketAddr,
    /// The address of the remote peer.
    pub peer_addr: SocketAddr,
}

impl<SendingPacket> Clone for EcsConnection<SendingPacket> {
    fn clone(&self) -> (connection: Self)
        ensures
            connection == *self,
    {
        EcsConnection {
            disconnect_task: self.disconnect_task,
            id: self.id,
            packet_tx: channel_clone(&self.packet_tx),
            local_addr: self.local_addr,
            peer_addr: self.peer_addr,
        }
    }
}

impl<SendingPacket> EcsConnection<SendingPacket> {
    /// Returns this connection's id.
    pub fn id(&self) -> (id: ConnectionId)
        ensures
            id == self.id,
    {
        self.id
    }

    /// Returns the socket address of the remote peer of this connection.
    pub fn peer_addr(&self) -> (address: SocketAddr)
        ensures
            address == self.peer_addr,
    {
        self.peer_addr
    }

    /// Returns the socket address of the local half of this connection.
    pub fn local_addr(&self) -> (address: SocketAddr)
        ensures
            address == self.local_addr,
    {
        self.local_addr
    }

    /// Sends a packet to the peer. Gives the packet back if the connection is closed.
    ///
    /// A packet for a connection that was not asked to close is handed over to the
    /// channel, and the channel's reply decides. Whether the channel takes it depends
    /// on the task at its other end, so nothing is said of that.
    pub fn send(&self, packet: SendingPacket, tasks: &DisconnectTasks) -> (result: Result<
        (),
        SendError<SendingPacket>,
    >)
        ensures
            result matches Err(error) ==> error.0 == packet,
            tasks@.requested(self.disconnect_task) ==> result is Err,
            !tasks@.requested(self.disconnect_task) ==> exists|reply: Result<(), SendingPacket>|
                {
                    &&& #[trigger] channel_may_reply(self.packet_tx, packet, reply)
                    &&& result == spec_send_result(reply)
                },
    {
        if tasks.requested(self.disconnect_task) {
            return Err(SendError(packet));
        }
        let hand_over = channel_send::<SendingPacket>;
        let reply: Result<(), SendingPacket> = hand_over(&self.packet_tx, packet);
        assert(channel_may_reply(self.packet_tx, packet, reply));
        send_result(reply)
    }

    /// Closes the connection. Says whether there is somebody to wake up.
    pub fn disconnect(&self, tasks: &mut DisconnectTasks) -> (wake: bool)
        ensures
            wake == old(tasks)@.awaited(self.disconnect_task),
            final(tasks)@ == old(tasks)@.after_disconnect(self.disconnect_task),
    {
        tasks.disconnect(self.disconnect_task)
    }

    /// The connection as a text for people.
    pub fn debug_text(&self) -> (debug: String)
        ensures
            debug@ == "Connection #"@ + text::decimal(self.id.number() as nat),
    {
        let mut debug: String = String::new();
        debug.append("Connection #");
        text::append_decimal(&mut debug, self.id.0);
        debug
    }
}

/// A clone drives the same connection: it has the same id and addresses, puts its
/// packets into the same channel, and where one of the two was closed, neither sends
/// anything any more, whatever else happens.
pub proof fn law_clones_drive_one_connection<SendingPacket>(
    connection: EcsConnection<SendingPacket>,
    copy: EcsConnection<SendingPacket>,
    states: TaskStates,
    events: Seq<TaskEvent>,
)
    requires
        cloned(connection, copy),
        states.wf(),
        states.created + events.len() <= u64::MAX,
        states.knows(connection.disconnect_task),
    ensures
        copy.id == connection.id,
        copy.local_addr == connection.local_addr,
        copy.peer_addr == connection.peer_addr,
        copy.packet_tx == connection.packet_tx,
        states.after_disconnect(copy.disconnect_task).after_all(events).requested(
            connection.disconnect_task,
        ),
        states.after_disconnect(connection.disconnect_task).after_all(events).requested(
            copy.disconnect_task,
        ),
{
    let task = connection.disconnect_task;
    law_requests_reach_every_handle(states.after_disconnect(task), events, task, task);
}

/// The side of a connection that owns the stream. `Stream` is the stream, `Packets`
/// the end of the channel from which the packets to be sent are taken.
pub struct RawConnection<Stream, Serializer, LengthSerializer, Packets> {
    /// The handle by which the connection is closed.
    pub disconnect_task: DisconnectTask,
    /// The stream.
    pub stream: Stream,
    /// Turns packets into bytes and back.
    pub serializer: Serializer,
    /// Writes and reads the lengths of packets.
    pub packet_length_serializer: LengthSerializer,
    /// Where packets to be sent come from.
    pub packets_rx: Packets,
    /// The connection's id.
    pub id: ConnectionId,
}

impl<Stream, Serializer, LengthSerializer, Packets> RawConnection<
    Stream,
    Serializer,
    LengthSerializer,
    Packets,
> {
    /// A connection over `stream`, with a new id, which nobody asked to close.
    pub fn new(
        stream: Stream,
        serializer: Serializer,
        packet_length_serializer: LengthSerializer,
        packets_rx: Packets,
        counter: &mut ConnectionCounter,
        tasks: &mut DisconnectTasks,
    ) -> (connection: Self)
        requires
            old(tasks)@.created < u64::MAX,
        ensures
            connection.disconnect_task.number() == old(tasks)@.created,
            final(tasks)@ == old(tasks)@.after_create(),
            connection.stream == stream,
            connection.serializer == serializer,
            connection.packet_length_serializer == packet_length_serializer,
            connection.packets_rx == packets_rx,
            connection.id.number() == old(counter).count(),
            final(counter).count() == count_after(old(counter).count(), 1),
    {
        RawConnection {
            disconnect_task: tasks.create(),
            stream,
            serializer,
            packet_length_serializer,
            packets_rx,
            id: ConnectionId::next(counter),
        }
    }

    /// Returns this connection's id.
    pub fn id(&self) -> (id: ConnectionId)
        ensures
            id == self.id,
    {
        self.id
    }

    /// The connection as a text for people.
    pub fn debug_text(&self) -> (debug: String)
        ensures
            debug@ == "RawConnection #"@ + text::decimal(self.id.number() as nat),
    {
        let mut debug: String = String::new();
        debug.append("RawConnection #");
        text::append_decimal(&mut debug, self.id.0);
        debug
    }
}

impl<Stream: NetworkStream, Serializer, LengthSerializer, Packets> RawConnection<
    Stream,
    Serializer,
    LengthSerializer,
    Packets,
> {
    /// Returns the socket address of the local half of this connection.
    pub fn local_addr(&self) -> (address: SocketAddr)
        ensures
            address == self.stream.spec_local_addr(),
    {
        self.stream.local_addr()
    }

    /// Returns the socket address of the remote peer of this connection.
    pub fn peer_addr(&self) -> (address: SocketAddr)
        ensures
            address == self.stream.spec_peer_addr(),
    {
        self.stream.peer_addr()
    }

    /// The program's side of this connection, with `packet_tx` as the end of the
    /// channel into which packets to be sent are put.
    pub open spec fn spec_ecs_side<SendingPacket>(
        self,
        packet_tx: UnboundedSender<SendingPacket>,
    ) -> EcsConnection<SendingPacket> {
        EcsConnection {
            disconnect_task: self.disconnect_task,
            id: self.id,
            packet_tx,
            local_addr: self.stream.spec_local_addr(),
            peer_addr: self.stream.spec_peer_addr(),
        }
    }

    /// The side of this connection that the program works with.
    pub fn ecs_side<SendingPacket>(&self, packet_tx: UnboundedSender<SendingPacket>) -> (ecs:
        EcsConnection<SendingPacket>)
        ensures
            ecs == self.spec_ecs_side(packet_tx),
    {
        EcsConnection {
            disconnect_task: self.disconnect_task,
            id: self.id(),
            packet_tx,
            local_addr: self.local_addr(),
            peer_addr: self.peer_addr(),
        }
    }
}

/// The count goes up by one from id to id, and starts again from zero after the largest
/// number.
pub proof fn law_count_goes_up_by_one(count: usize, draws: nat)
    ensures
        count_after(count, 0) == count,
        count < usize::MAX ==> count_after(count, 1) == count + 1,
        count_after(usize::MAX, 1) == 0,
        count_after(count, draws + 1) == count_after(count_after(count, draws), 1),
{
    let modulus = usize::MAX + 1;
    vstd::arithmetic::div_mod::lemma_small_mod(count as nat, modulus as nat);
    vstd::arithmetic::div_mod::lemma_mod_self_0(modulus);
    if count < usize::MAX {
        vstd::arithmetic::div_mod::lemma_small_mod((count + 1) as nat, modulus as nat);
    }
    vstd::arithmetic::div_mod::lemma_add_mod_noop((count + draws) as int, 1, modulus);
    vstd::arithmetic::div_mod::lemma_small_mod(1, modulus as nat);
}

impl TaskStates {
    /// Asking one connection to close does nothing to another one.
    pub proof fn lemma_disconnecting_one(self, task: DisconnectTask, other: DisconnectTask)
        requires
            other != task,
        ensures
            self.after_disconnect(task).requested(task),
            self.after_disconnect(task).requested(other) == self.requested(other),
            self.after_disconnect(task).awaited(other) == self.awaited(other),
    {
    }
}

/// A connection is open from its creation until it is asked to close, and somebody waits
/// for the request exactly if they asked while it was open. What is done to one
/// connection does nothing to another one.
pub proof fn law_each_request_is_its_own(
    states: TaskStates,
    task: DisconnectTask,
    other: DisconnectTask,
    fresh: DisconnectTask,
)
    requires
        states.wf(),
        states.created < u64::MAX,
        fresh.number() == states.created,
    ensures
        !states.knows(fresh),
        states.after_create().knows(fresh),
        !states.after_create().requested(fresh),
        !states.after_create().awaited(fresh),
        states.after_create().created == states.created + 1,
        states.knows(task) ==> {
            &&& states.after_create().knows(task)
            &&& states.after_create().requested(task) == states.requested(task)
            &&& states.after_create().awaited(task) == states.awaited(task)
        },
        states.after_disconnect(task).requested(task),
        !states.after_disconnect(task).awaited(task),
        states.after_disconnect(task).created == states.created,
        states.after_poll(task).requested(task) == states.requested(task),
        states.after_poll(task).awaited(task) == !states.requested(task),
        states.after_poll(task).created == states.created,
        other.number() != task.number() ==> {
            &&& states.after_disconnect(task).requested(other) == states.requested(other)
            &&& states.after_disconnect(task).awaited(other) == states.awaited(other)
            &&& states.after_poll(task).requested(other) == states.requested(other)
            &&& states.after_poll(task).awaited(other) == states.awaited(other)
        },
{
}

/// A packet counts as sent exactly if the channel took it; one that the channel did not
/// take comes back as it is.
pub proof fn law_replies_are_passed_on<P>(reply: Result<(), P>, returned: P)
    ensures
        spec_send_result(reply) is Ok <==> reply is Ok,
        spec_send_result(reply) == Err::<(), SendError<P>>(SendError(returned)) <==> reply == Err::<
            (),
            P,
        >(returned),
{
}

/// The two sides of a connection have the same handle and id, and the addresses of the
/// stream.
pub proof fn law_sides_of_a_connection_agree<
    SendingPacket,
    Stream: NetworkStream,
    Serializer,
    LengthSerializer,
    Packets,
>(
    raw: RawConnection<Stream, Serializer, LengthSerializer, Packets>,
    packet_tx: UnboundedSender<SendingPacket>,
)
    ensures
        raw.spec_ecs_side(packet_tx).disconnect_task == raw.disconnect_task,
        raw.spec_ecs_side(packet_tx).id == raw.id,
        raw.spec_ecs_side(packet_tx).packet_tx == packet_tx,
        raw.spec_ecs_side(packet_tx).local_addr == raw.stream.spec_local_addr(),
        raw.spec_ecs_side(packet_tx).peer_addr == raw.stream.spec_peer_addr(),
{
}

} // verus!
