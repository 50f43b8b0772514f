//! The decisions of the UDP protocol: which datagram belongs to which connection,
//! and how the datagrams of a connection make a stream of bytes.
use crate::address::{AddressKey, SocketAddr};
use crate::connection::MaxPacketSize;
use crate::packet_length_serializer::PacketLengthSerializer;
use crate::protocol;
use crate::protocol::{NetworkStream, ServerStream, StreamErrorKind};
use dashmap::DashMap;
use std::collections::hash_map::RandomState;
use std::collections::HashMap;
use vstd::prelude::*;

verus! {

broadcast use vstd::std_specs::hash::group_hash_axioms;

/// The largest datagram that is received.
pub const BUFFER_SIZE: usize = 65535;

// ---------------------------------------------------------------------------
// The table of connections.

#[verifier::external_type_specification]
#[verifier::external_body]
#[verifier::reject_recursive_types(K)]
#[verifier::reject_recursive_types(V)]
#[verifier::reject_recursive_types(S)]
pub struct ExDashMap<K, V, S>(dashmap::DashMap<K, V, S>);

/// What a table holds.
pub uninterp spec fn table(map: DashMap<AddressKey, u64, RandomState>) -> Map<AddressKey, u64>;

/// `DashMap::new`: an empty table.
#[verifier::external_body]
fn table_new() -> (map: DashMap<AddressKey, u64>)
    ensures
        (table(map) == Map::<AddressKey, u64>::empty()),
{
    DashMap::new()
}

/// `DashMap::get`: a copy of the value under `key`, if there is one.
#[verifier::external_body]
fn table_get(map: &DashMap<AddressKey, u64>, key: &AddressKey) -> (value: Option<u64>)
    ensures
        value is Some <==> table(*map).contains_key(*key),
        value matches Some(found) ==> found == table(*map)[*key],
{
    map.get(key).map(|found| *found)
}

/// `DashMap::insert`: puts `value` under `key`, in place of what was there. The table
/// belongs to the caller alone, so nobody else changes it meanwhile.
#[verifier::external_body]
fn table_insert(map: &mut DashMap<AddressKey, u64>, key: AddressKey, value: u64)
    ensures
        table(*final(map)) == table(*old(map)).insert(key, value),
{
    map.insert(key, value);
}

/// `DashMap::remove`: takes `key` and its value out of the table. The table belongs
/// to the caller alone, so nobody else changes it meanwhile.
#[verifier::external_body]
fn table_remove(map: &mut DashMap<AddressKey, u64>, key: &AddressKey)
    ensures
        table(*final(map)) == table(*old(map)).remove(*key),
{
    map.remove(key);
}

// ---------------------------------------------------------------------------
// Bytes that wait to be read.

/// Takes the first `wanted` bytes off `bytes`, if there are so many.
fn take_front(bytes: &mut Vec<u8>, wanted: usize) -> (front: Option<Vec<u8>>)
    ensures
        front is Some <==> old(bytes)@.len() >= wanted,
        front matches Some(taken) ==> taken@ == old(bytes)@.take(wanted as int) && final(bytes)@
            == old(bytes)@.skip(wanted as int),
        front is None ==> final(bytes)@ == old(bytes)@,
{
    if bytes.len() >= wanted {
        let mut rest: Vec<u8> = bytes.split_off(wanted);
        std::mem::swap(bytes, &mut rest);
        Some(rest)
    } else {
        None
    }
}

// ---------------------------------------------------------------------------
// The server's side.

/// The connections of a listener. Every connection has a number, its task; `tasks`
/// says which task an address belongs to, `buffers` holds for each task that is still
/// read from the bytes that were received and not read yet, and `created` is how many
/// tasks there have been.
pub ghost struct UdpSessions {
    pub tasks: Map<SocketAddr, u64>,
    pub buffers: Map<u64, Seq<u8>>,
    pub created: nat,
}

impl UdpSessions {
    /// Every address belongs to a task of its own, and no task is there before it was
    /// created.
    pub open spec fn wf(self) -> bool {
        &&& forall|task: u64| #[trigger] self.buffers.contains_key(task) ==> task < self.created
        &&& forall|address: SocketAddr| #[trigger]
            self.tasks.contains_key(address) ==> self.tasks[address] < self.created
        &&& forall|one: SocketAddr, other: SocketAddr| #[trigger]
            self.tasks.contains_key(one) && #[trigger] self.tasks.contains_key(other) && one
                != other ==> self.tasks[one] != self.tasks[other]
    }

    /// The connections after a datagram came from `address`. Where the address has a
    /// connection, the bytes are added to those that wait to be read, if somebody
    /// still reads them. Where it has none, it gets one, and the bytes are dropped:
    /// the datagram is the request to connect.
    pub open spec fn after_datagram(self, address: SocketAddr, bytes: Seq<u8>) -> UdpSessions {
        if self.tasks.contains_key(address) {
            let task = self.tasks[address];
            if self.buffers.contains_key(task) {
                UdpSessions {
                    buffers: self.buffers.insert(task, self.buffers[task] + bytes),
                    ..self
                }
            } else {
                self
            }
        } else {
            UdpSessions {
                tasks: self.tasks.insert(address, self.created as u64),
                buffers: self.buffers.insert(self.created as u64, Seq::empty()),
                created: self.created + 1,
            }
        }
    }

    /// The connections after the one with `address` was closed: the address has none,
    /// and the bytes that wait to be read stay.
    pub open spec fn after_disconnection(self, address: SocketAddr) -> UdpSessions {
        UdpSessions { tasks: self.tasks.remove(address), ..self }
    }

    /// The connections after nobody reads from `task` any more: its bytes are gone.
    pub open spec fn after_release(self, task: u64) -> UdpSessions {
        UdpSessions { buffers: self.buffers.remove(task), ..self }
    }

    /// What a read of `wanted` bytes gives, or `None` if there are not so many yet.
    pub open spec fn readable(self, task: u64, wanted: usize) -> Option<Seq<u8>> {
        if self.buffers.contains_key(task) && self.buffers[task].len() >= wanted {
            Some(self.buffers[task].take(wanted as int))
        } else {
            None
        }
    }

    /// The connections after somebody tried to read `wanted` bytes.
    pub open spec fn after_read(self, task: u64, wanted: usize) -> UdpSessions {
        if self.buffers.contains_key(task) && self.buffers[task].len() >= wanted {
            UdpSessions {
                buffers: self.buffers.insert(task, self.buffers[task].skip(wanted as int)),
                ..self
            }
        } else {
            self
        }
    }
}

/// A UDP listener: one socket for all connections.
pub struct UdpNetworkListener {
    address: SocketAddr,
    tasks: DashMap<AddressKey, u64>,
    buffers: HashMap<u64, Vec<u8>>,
    created: u64,
}

impl View for UdpNetworkListener {
    type V = UdpSessions;

    closed spec fn view(&self) -> UdpSessions {
        UdpSessions {
            tasks: Map::new(
                |address: SocketAddr| table(self.tasks).contains_key(address.spec_key()),
                |address: SocketAddr| table(self.tasks)[address.spec_key()],
            ),
            buffers: self.buffers@.map_values(|buffer: Vec<u8>| buffer@),
            created: self.created as nat,
        }
    }
}

/// What a datagram was.
pub enum UdpAccepted {
    /// The request to connect of a client that had no connection.
    Opened(UdpServerStream),
    /// Bytes for the connection whose task has the number. Whoever waits for them is to
    /// be woken.
    Received(u64),
}

impl UdpNetworkListener {
    /// The address that the listener listens at.
    pub closed spec fn spec_address(self) -> SocketAddr {
        self.address
    }

    /// A listener at `address`, without connections.
    pub fn new(address: SocketAddr) -> (listener: Self)
        ensures
            listener.spec_address() == address,
            listener@.tasks == Map::<SocketAddr, u64>::empty(),
            listener@.buffers == Map::<u64, Seq<u8>>::empty(),
            listener@.created == 0,
            listener@.wf(),
    {
        let listener: UdpNetworkListener = UdpNetworkListener {
            address,
            tasks: table_new(),
            buffers: HashMap::new(),
            created: 0,
        };
        assert(listener@.tasks =~= Map::<SocketAddr, u64>::empty());
        assert(listener@.buffers =~= Map::<u64, Seq<u8>>::empty());
        listener
    }

    /// Get the local address that this listener listens at.
    pub fn address(&self) -> (address: SocketAddr)
        ensures
            address == self.spec_address(),
    {
        self.address
    }

    /// Whether a datagram from `address` can be taken: a new connection needs a number
    /// that no connection had before.
    pub fn can_accept(&self, address: SocketAddr) -> (can: bool)
        ensures
            can == (self@.tasks.contains_key(address) || self@.created < u64::MAX),
    {
        table_get(&self.tasks, &address.key()).is_some() || self.created < u64::MAX
    }

    /// Takes a datagram. A datagram from an address without a connection makes one;
    /// the bytes of another datagram wait to be read.
    pub fn accept(&mut self, address: SocketAddr, bytes: &[u8]) -> (accepted: UdpAccepted)
        requires
            old(self)@.tasks.contains_key(address) || old(self)@.created < u64::MAX,
        ensures
            final(self)@ == old(self)@.after_datagram(address, bytes@),
            final(self).spec_address() == old(self).spec_address(),
            match accepted {
                UdpAccepted::Opened(stream) => {
                    &&& !old(self)@.tasks.contains_key(address)
                    &&& stream.spec_task() == old(self)@.created
                    &&& stream.spec_peer_addr() == address
                    &&& stream.spec_local_addr() == old(self).spec_address()
                },
                UdpAccepted::Received(task) => {
                    &&& old(self)@.tasks.contains_key(address)
                    &&& task == old(self)@.tasks[address]
                },
            },
    {
        let key: AddressKey = address.key();
        match table_get(&self.tasks, &key) {
            Some(task) => {
                assert(old(self)@.tasks.contains_key(address));
                match self.buffers.remove(&task) {
                    Some(waiting) => {
                        let mut buffer: Vec<u8> = waiting;
                        buffer.extend_from_slice(bytes);
                        assert(buffer@ =~= waiting@ + bytes@);
                        self.buffers.insert(task, buffer);
                        assert(self@.buffers =~= old(self)@.after_datagram(
                            address,
                            bytes@,
                        ).buffers);
                    },
                    None => {
                        assert(self.buffers@ =~= old(self).buffers@);
                    },
                }
                UdpAccepted::Received(task)
            },
            None => {
                assert(!old(self)@.tasks.contains_key(address));
                let task: u64 = self.created;
                table_insert(&mut self.tasks, key, task);
                self.buffers.insert(task, Vec::new());
                self.created = task + 1;
                assert(self@.tasks =~= old(self)@.after_datagram(address, bytes@).tasks);
                assert(self@.buffers =~= old(self)@.after_datagram(address, bytes@).buffers);
                UdpAccepted::Opened(
                    UdpServerStream { task, peer_addr: address, local_addr: self.address },
                )
            },
        }
    }

    /// Forgets the connection with `peer_addr`: the next datagram from there makes a
    /// new one.
    pub fn handle_disconnection(&mut self, peer_addr: SocketAddr)
        ensures
            final(self)@ == old(self)@.after_disconnection(peer_addr),
            final(self).spec_address() == old(self).spec_address(),
    {
        let key: AddressKey = peer_addr.key();
        table_remove(&mut self.tasks, &key);
        assert(self@.tasks =~= old(self)@.after_disconnection(peer_addr).tasks);
    }

    /// Drops the bytes of a connection that nobody reads from any more.
    pub fn release(&mut self, half: UdpServerReadHalf)
        ensures
            final(self)@ == old(self)@.after_release(half.spec_task()),
            final(self).spec_address() == old(self).spec_address(),
    {
        self.buffers.remove(&half.0);
        assert(self@.buffers =~= old(self)@.after_release(half.spec_task()).buffers);
    }
}

/// A UDP server stream: the number of its task and its two addresses.
pub struct UdpServerStream {
    task: u64,
    peer_addr: SocketAddr,
    local_addr: SocketAddr,
}

impl NetworkStream for UdpServerStream {
    closed spec fn spec_peer_addr(&self) -> SocketAddr {
        self.peer_addr
    }

    closed spec fn spec_local_addr(&self) -> SocketAddr {
        self.local_addr
    }

    fn peer_addr(&self) -> SocketAddr {
        self.peer_addr
    }

    fn local_addr(&self) -> SocketAddr {
        self.local_addr
    }
}

impl ServerStream for UdpServerStream {

}

impl UdpServerStream {
    /// The number of the task whose bytes the stream reads.
    pub closed spec fn spec_task(self) -> u64 {
        self.task
    }

    /// The number of the task whose bytes the stream reads.
    pub fn task(&self) -> (task: u64)
        ensures
            task == self.spec_task(),
    {
        self.task
    }

    /// Splits the stream into the half that reads its task's bytes and the half that
    /// writes to its peer.
    pub fn into_split(self) -> (halves: (UdpServerReadHalf, UdpServerWriteHalf))
        ensures
            halves.0.spec_task() == self.spec_task(),
            halves.1.spec_peer_addr() == self.spec_peer_addr(),
    {
        let peer_addr: SocketAddr = self.peer_addr();
        (UdpServerReadHalf(self.task), UdpServerWriteHalf { peer_addr })
    }
}

/// The read half of [`UdpServerStream`].
pub struct UdpServerReadHalf(u64);

impl UdpServerReadHalf {
    /// The number of the task whose bytes are read.
    pub closed spec fn spec_task(self) -> u64 {
        self.0
    }

    /// The number of the task whose bytes are read.
    pub fn task(&self) -> (task: u64)
        ensures
            task == self.spec_task(),
    {
        self.0
    }

    /// Starts to read `wanted` bytes.
    pub fn read_exact(&self, wanted: usize) -> (task: UdpReadTask)
        ensures
            task.spec_task() == self.spec_task(),
            task.spec_wanted() == wanted,
    {
        UdpReadTask { task: self.0, wanted }
    }
}

/// An attempt to read a number of bytes that goes on until they are there.
pub struct UdpReadTask {
    task: u64,
    wanted: usize,
}

impl UdpReadTask {
    /// The number of the task whose bytes are read.
    pub closed spec fn spec_task(self) -> u64 {
        self.task
    }

    /// How many bytes are wanted.
    pub closed spec fn spec_wanted(self) -> usize {
        self.wanted
    }

    /// Takes the bytes, if all of them are there; otherwise takes none.
    pub fn poll(&self, listener: &mut UdpNetworkListener) -> (bytes: Option<Vec<u8>>)
        ensures
            viewed_bytes(bytes) == old(listener)@.readable(self.spec_task(), self.spec_wanted()),
            final(listener)@ == old(listener)@.after_read(self.spec_task(), self.spec_wanted()),
            final(listener).spec_address() == old(listener).spec_address(),
    {
        match listener.buffers.remove(&self.task) {
            Some(waiting) => {
                let mut buffer: Vec<u8> = waiting;
                let bytes: Option<Vec<u8>> = take_front(&mut buffer, self.wanted);
                listener.buffers.insert(self.task, buffer);
                assert(listener@.buffers =~= old(listener)@.after_read(
                    self.task,
                    self.wanted,
                ).buffers);
                bytes
            },
            None => {
                assert(listener.buffers@ =~= old(listener).buffers@);
                None
            },
        }
    }
}

/// The bytes of a `Vec`, if there is one.
pub open spec fn viewed_bytes(bytes: Option<Vec<u8>>) -> Option<Seq<u8>> {
    match bytes {
        Some(bytes) => Some(bytes@),
        None => None,
    }
}

/// The write half of [`UdpServerStream`].
pub struct UdpServerWriteHalf {
    peer_addr: SocketAddr,
}

impl UdpServerWriteHalf {
    /// Where the bytes are sent to.
    pub closed spec fn spec_peer_addr(self) -> SocketAddr {
        self.peer_addr
    }

    /// Where the bytes are sent to.
    pub fn peer_addr(&self) -> (address: SocketAddr)
        ensures
            address == self.spec_peer_addr(),
    {
        self.peer_addr
    }
}

/// Whether a datagram went out whole: `i` of the bytes in `buf` were sent.
pub fn assert_all(i: usize, buf: &[u8]) -> (result: Result<(), StreamErrorKind>)
    ensures
        result is Ok <==> i == buf@.len(),
        result matches Err(kind) ==> kind == StreamErrorKind::BrokenPipe,
{
    if i == buf.len() {
        Ok(())
    } else {
        Err(StreamErrorKind::BrokenPipe)
    }
}

// ---------------------------------------------------------------------------
// The client's side.

/// A UDP client stream: the addresses of both ends.
pub struct UdpClientStream {
    peer_addr: SocketAddr,
    local_addr: SocketAddr,
}

impl NetworkStream for UdpClientStream {
    closed spec fn spec_peer_addr(&self) -> SocketAddr {
        self.peer_addr
    }

    closed spec fn spec_local_addr(&self) -> SocketAddr {
        self.local_addr
    }

    fn peer_addr(&self) -> SocketAddr {
        self.peer_addr
    }

    fn local_addr(&self) -> SocketAddr {
        self.local_addr
    }
}

impl UdpClientStream {
    /// The stream of a socket that is connected to `peer_addr`.
    pub fn new(peer_addr: SocketAddr, local_addr: SocketAddr) -> (stream: Self)
        ensures
            stream.spec_peer_addr() == peer_addr,
            stream.spec_local_addr() == local_addr,
    {
        UdpClientStream { peer_addr, local_addr }
    }

    /// The read half of the stream: nothing was received yet.
    pub fn read_half(&self) -> (half: UdpClientReadHalf)
        ensures
            half@ == Seq::<u8>::empty(),
    {
        UdpClientReadHalf { buffer: Vec::new() }
    }
}

/// The read half of [`UdpClientStream`]: the bytes that were received and not read yet.
pub struct UdpClientReadHalf {
    buffer: Vec<u8>,
}

impl View for UdpClientReadHalf {
    type V = Seq<u8>;

    closed spec fn view(&self) -> Seq<u8> {
        self.buffer@
    }
}

impl UdpClientReadHalf {
    /// Takes `wanted` bytes, if so many were received. Otherwise takes none: another
    /// datagram has to be received first.
    pub fn read_exact(&mut self, wanted: usize) -> (bytes: Option<Vec<u8>>)
        ensures
            bytes is Some <==> old(self)@.len() >= wanted,
            bytes matches Some(taken) ==> taken@ == old(self)@.take(wanted as int),
            final(self)@ == waiting_after(old(self)@, UdpClientEvent::Read(wanted)),
    {
        take_front(&mut self.buffer, wanted)
    }

    /// Adds the bytes of a datagram.
    pub fn receive(&mut self, datagram: &[u8])
        ensures
            final(self)@ == waiting_after(old(self)@, UdpClientEvent::Datagram(datagram@)),
    {
        self.buffer.extend_from_slice(datagram);
    }
}

// ---------------------------------------------------------------------------
// What holds of every conversation.

/// Something that happens to the connections of a listener.
pub ghost enum UdpEvent {
    Datagram(SocketAddr, Seq<u8>),
    Read(u64, usize),
    Disconnection(SocketAddr),
    Release(u64),
}

impl UdpSessions {
    /// The connections after `event`.
    pub open spec fn after(self, event: UdpEvent) -> UdpSessions {
        match event {
            UdpEvent::Datagram(address, bytes) => self.after_datagram(address, bytes),
            UdpEvent::Read(task, wanted) => self.after_read(task, wanted),
            UdpEvent::Disconnection(address) => self.after_disconnection(address),
            UdpEvent::Release(task) => self.after_release(task),
        }
    }

    /// The connections after all of `events`, the first one first.
    pub open spec fn after_all(self, events: Seq<UdpEvent>) -> UdpSessions
        decreases events.len(),
    {
        if events.len() == 0 {
            self
        } else {
            self.after(events[0]).after_all(events.skip(1))
        }
    }

    /// The bytes that `event` brings for `task`.
    pub open spec fn brought(self, event: UdpEvent, task: u64) -> Seq<u8> {
        match event {
            UdpEvent::Datagram(address, bytes) => if self.tasks.contains_key(address)
                && self.tasks[address] == task {
                bytes
            } else {
                Seq::empty()
            },
            _ => Seq::empty(),
        }
    }

    /// The bytes that `event` reads from `task`.
    pub open spec fn taken(self, event: UdpEvent, task: u64) -> Seq<u8> {
        match event {
            UdpEvent::Read(from, wanted) => if from == task {
                match self.readable(from, wanted) {
                    Some(bytes) => bytes,
                    None => Seq::empty(),
                }
            } else {
                Seq::empty()
            },
            _ => Seq::empty(),
        }
    }

    /// The bytes that `events` bring for `task`, in their order.
    pub open spec fn all_brought(self, events: Seq<UdpEvent>, task: u64) -> Seq<u8>
        decreases events.len(),
    {
        if events.len() == 0 {
            Seq::empty()
        } else {
            self.brought(events[0], task) + self.after(events[0]).all_brought(
                events.skip(1),
                task,
            )
        }
    }

    /// The bytes that `events` read from `task`, in their order.
    pub open spec fn all_taken(self, events: Seq<UdpEvent>, task: u64) -> Seq<u8>
        decreases events.len(),
    {
        if events.len() == 0 {
            Seq::empty()
        } else {
            self.taken(events[0], task) + self.after(events[0]).all_taken(events.skip(1), task)
        }
    }
}

/// Every event keeps the connections well-formed, as long as the tasks can be
/// numbered.
pub proof fn law_sessions_stay_well_formed(sessions: UdpSessions, event: UdpEvent)
    requires
        sessions.wf(),
        sessions.created < u64::MAX,
    ensures
        sessions.after(event).wf(),
        sessions.created <= sessions.after(event).created <= sessions.created + 1,
{
}

/// The datagrams of a connection make a stream of bytes: whatever else happens in
/// between, what is read and what waits to be read is, byte for byte and in the same
/// order, what waited before and what the datagrams brought. This holds as long as
/// somebody reads from the connection.
pub proof fn law_datagrams_make_a_stream(
    sessions: UdpSessions,
    events: Seq<UdpEvent>,
    task: u64,
)
    requires
        sessions.wf(),
        sessions.created + events.len() <= u64::MAX,
        sessions.buffers.contains_key(task),
        !events.contains(UdpEvent::Release(task)),
    ensures
        sessions.after_all(events).buffers.contains_key(task),
        sessions.buffers[task] + sessions.all_brought(events, task) == sessions.all_taken(
            events,
            task,
        ) + sessions.after_all(events).buffers[task],
    decreases events.len(),
{
    if events.len() == 0 {
        assert(sessions.buffers[task] + Seq::<u8>::empty() =~= Seq::<u8>::empty()
            + sessions.buffers[task]);
    } else {
        let event = events[0];
        let next = sessions.after(event);
        assert(event != UdpEvent::Release(task));
        assert forall|i: int| 0 <= i < events.len() - 1 implies #[trigger] events.skip(1)[i]
            != UdpEvent::Release(task) by {
            assert(events.skip(1)[i] == events[i + 1]);
        }
        law_sessions_stay_well_formed(sessions, event);
        law_datagrams_make_a_stream(next, events.skip(1), task);
        assert(sessions.buffers[task] + sessions.brought(event, task) =~= sessions.taken(
            event,
            task,
        ) + next.buffers[task]);
        let brought = next.all_brought(events.skip(1), task);
        let taken = next.all_taken(events.skip(1), task);
        let end = next.after_all(events.skip(1)).buffers[task];
        assert(sessions.buffers[task] + (sessions.brought(event, task) + brought) =~= (
        sessions.buffers[task] + sessions.brought(event, task)) + brought);
        assert((sessions.taken(event, task) + next.buffers[task]) + brought =~= sessions.taken(
            event,
            task,
        ) + (next.buffers[task] + brought));
        assert(sessions.taken(event, task) + (taken + end) =~= (sessions.taken(event, task)
            + taken) + end);
    }
}

/// How a peer cuts its bytes into datagrams does not matter: two datagrams one after
/// the other leave what one datagram with the bytes of both leaves.
pub proof fn law_cuts_do_not_matter(
    sessions: UdpSessions,
    address: SocketAddr,
    first: Seq<u8>,
    second: Seq<u8>,
)
    requires
        sessions.tasks.contains_key(address),
    ensures
        sessions.after_datagram(address, first).after_datagram(address, second)
            == sessions.after_datagram(address, first + second),
{
    let task = sessions.tasks[address];
    assert(sessions.buffers[task] + (first + second) =~= (sessions.buffers[task] + first)
        + second);
    assert(sessions.after_datagram(address, first).after_datagram(address, second).buffers
        =~= sessions.after_datagram(address, first + second).buffers);
}

/// A datagram concerns its own connection only: every other address keeps its task,
/// and its task keeps its bytes.
pub proof fn law_other_connections_are_untouched(
    sessions: UdpSessions,
    address: SocketAddr,
    bytes: Seq<u8>,
    other: SocketAddr,
)
    requires
        sessions.wf(),
        sessions.created < u64::MAX,
        sessions.tasks.contains_key(other),
        sessions.buffers.contains_key(sessions.tasks[other]),
        other != address,
    ensures
        ({
            let task = sessions.tasks[other];
            let received = sessions.after_datagram(address, bytes);
            let closed = sessions.after_disconnection(address);
            &&& received.tasks.contains_key(other)
            &&& received.tasks[other] == task
            &&& received.buffers.contains_key(task)
            &&& received.buffers[task] == sessions.buffers[task]
            &&& closed.tasks.contains_key(other)
            &&& closed.tasks[other] == task
            &&& closed.buffers == sessions.buffers
        }),
{
}

/// After a connection was closed, the next datagram from its address opens a new one,
/// which starts without bytes and is none of the connections before.
pub proof fn law_closed_address_connects_again(
    sessions: UdpSessions,
    address: SocketAddr,
    bytes: Seq<u8>,
)
    requires
        sessions.wf(),
        sessions.created < u64::MAX,
    ensures
        ({
            let closed = sessions.after_disconnection(address);
            let opened = closed.after_datagram(address, bytes);
            let task = opened.tasks[address];
            &&& !closed.tasks.contains_key(address)
            &&& opened.tasks.contains_key(address)
            &&& task == sessions.created
            &&& !sessions.buffers.contains_key(task)
            &&& opened.buffers.contains_key(task)
            &&& opened.buffers[task] == Seq::<u8>::empty()
        }),
{
}

/// Of a connection that was closed and is not read from any more nothing is kept,
/// whichever of the two came first.
pub proof fn law_closed_connections_are_freed(sessions: UdpSessions, address: SocketAddr)
    requires
        sessions.wf(),
        sessions.tasks.contains_key(address),
    ensures
        ({
            let task = sessions.tasks[address];
            let freed = sessions.after_disconnection(address).after_release(task);
            &&& sessions.after_release(task).after_disconnection(address) == freed
            &&& !freed.buffers.contains_key(task)
            &&& !freed.tasks.contains_key(address)
            &&& forall|other: SocketAddr| #[trigger]
                freed.tasks.contains_key(other) ==> freed.tasks[other] != task
        }),
{
}

/// Packets that a peer sends, each one in a datagram of its own.
pub open spec fn packets_sent<LS: PacketLengthSerializer>(
    length_serializer: LS,
    address: SocketAddr,
    payloads: Seq<Seq<u8>>,
) -> Seq<UdpEvent> {
    payloads.map_values(
        |payload: Seq<u8>|
            UdpEvent::Datagram(address, protocol::framed(length_serializer, payload)->Ok_0),
    )
}

proof fn lemma_frames_are_buffered<LS: PacketLengthSerializer>(
    sessions: UdpSessions,
    length_serializer: LS,
    address: SocketAddr,
    payloads: Seq<Seq<u8>>,
)
    requires
        sessions.tasks.contains_key(address),
        sessions.buffers.contains_key(sessions.tasks[address]),
    ensures
        sessions.after_all(
            packets_sent(length_serializer, address, payloads),
        ).buffers[sessions.tasks[address]] == sessions.buffers[sessions.tasks[address]]
            + protocol::all_framed(length_serializer, payloads),
    decreases payloads.len(),
{
    let task = sessions.tasks[address];
    let events = packets_sent(length_serializer, address, payloads);
    if payloads.len() == 0 {
        assert(sessions.buffers[task] + Seq::<u8>::empty() =~= sessions.buffers[task]);
    } else {
        let frame = protocol::framed(length_serializer, payloads[0])->Ok_0;
        let next = sessions.after_datagram(address, frame);
        let later = payloads.skip(1);
        assert(events.skip(1) =~= packets_sent(length_serializer, address, later));
        lemma_frames_are_buffered(next, length_serializer, address, later);
        assert((sessions.buffers[task] + frame) + protocol::all_framed(length_serializer, later)
            =~= sessions.buffers[task] + (frame + protocol::all_framed(length_serializer, later)));
    }
}

/// Packets arrive over UDP as they arrive over a stream: of packets whose datagrams
/// come in the order in which they were sent, those come out in the same order, none
/// lost, none twice and none changed, and nothing is left unread.
pub proof fn law_packets_arrive_over_udp<LS: PacketLengthSerializer>(
    sessions: UdpSessions,
    length_serializer: LS,
    max: usize,
    limit: MaxPacketSize,
    address: SocketAddr,
    payloads: Seq<Seq<u8>>,
)
    requires
        sessions.tasks.contains_key(address),
        sessions.buffers.contains_key(sessions.tasks[address]),
        sessions.buffers[sessions.tasks[address]].len() == 0,
        protocol::reads_back_up_to(length_serializer, max),
        forall|i: int|
            0 <= i < payloads.len() ==> #[trigger] payloads[i].len() <= max && payloads[i].len()
                <= limit.0,
    ensures
        protocol::all_received(
            length_serializer,
            limit,
            sessions.after_all(
                packets_sent(length_serializer, address, payloads),
            ).buffers[sessions.tasks[address]],
            payloads.len(),
        ) == Some((payloads, Seq::<u8>::empty())),
{
    let task = sessions.tasks[address];
    let frames = protocol::all_framed(length_serializer, payloads);
    lemma_frames_are_buffered(sessions, length_serializer, address, payloads);
    assert(sessions.buffers[task] + frames =~= frames + Seq::<u8>::empty());
    protocol::law_sent_packets_are_received_in_order(
        length_serializer,
        max,
        limit,
        payloads,
        Seq::empty(),
    );
}

/// Something that happens to the read half of a client's stream.
pub ghost enum UdpClientEvent {
    Datagram(Seq<u8>),
    Read(usize),
}

/// The bytes that wait to be read after `event`, where `waiting` waited before.
pub open spec fn waiting_after(waiting: Seq<u8>, event: UdpClientEvent) -> Seq<u8> {
    match event {
        UdpClientEvent::Datagram(bytes) => waiting + bytes,
        UdpClientEvent::Read(wanted) => if waiting.len() >= wanted {
            waiting.skip(wanted as int)
        } else {
            waiting
        },
    }
}

/// The bytes that wait to be read after all of `events`, the first one first.
pub open spec fn waiting_after_all(waiting: Seq<u8>, events: Seq<UdpClientEvent>) -> Seq<u8>
    decreases events.len(),
{
    if events.len() == 0 {
        waiting
    } else {
        waiting_after_all(waiting_after(waiting, events[0]), events.skip(1))
    }
}

/// The bytes that `events` bring, in their order.
pub open spec fn client_brought(events: Seq<UdpClientEvent>) -> Seq<u8>
    decreases events.len(),
{
    if events.len() == 0 {
        Seq::empty()
    } else {
        let later = client_brought(events.skip(1));
        match events[0] {
            UdpClientEvent::Datagram(bytes) => bytes + later,
            UdpClientEvent::Read(_) => later,
        }
    }
}

/// The bytes that `events` read, in their order.
pub open spec fn client_taken(waiting: Seq<u8>, events: Seq<UdpClientEvent>) -> Seq<u8>
    decreases events.len(),
{
    if events.len() == 0 {
        Seq::empty()
    } else {
        let later = client_taken(waiting_after(waiting, events[0]), events.skip(1));
        match events[0] {
            UdpClientEvent::Datagram(_) => later,
            UdpClientEvent::Read(wanted) => if waiting.len() >= wanted {
                waiting.take(wanted as int) + later
            } else {
                later
            },
        }
    }
}

/// On the client's side too the datagrams make a stream of bytes: what is read and
/// what waits to be read is, byte for byte and in the same order, what waited before
/// and what the datagrams brought.
pub proof fn law_datagrams_make_a_stream_for_clients(
    waiting: Seq<u8>,
    events: Seq<UdpClientEvent>,
)
    ensures
        waiting + client_brought(events) == client_taken(waiting, events) + waiting_after_all(
            waiting,
            events,
        ),
    decreases events.len(),
{
    if events.len() == 0 {
        assert(waiting + Seq::<u8>::empty() =~= Seq::<u8>::empty() + waiting);
    } else {
        let next = waiting_after(waiting, events[0]);
        let later = events.skip(1);
        law_datagrams_make_a_stream_for_clients(next, later);
        match events[0] {
            UdpClientEvent::Datagram(bytes) => {
                assert(waiting + (bytes + client_brought(later)) =~= (waiting + bytes)
                    + client_brought(later));
            },
            UdpClientEvent::Read(wanted) => if waiting.len() >= wanted {
                let front = waiting.take(wanted as int);
                assert(waiting + client_brought(later) =~= front + (next + client_brought(later)));
                assert(front + (client_taken(next, later) + waiting_after_all(next, later)) =~= (
                front + client_taken(next, later)) + waiting_after_all(next, later));
            },
        }
    }
}

/// Reads are exact: a read succeeds if and only if at least as many bytes wait as are
/// wanted, however many that are. It gives so many bytes, neither more nor fewer, and
/// they are the first ones that wait; all others go on waiting. A read that does not
/// succeed takes nothing, and no read touches another connection.
pub proof fn law_reads_are_exact(sessions: UdpSessions, task: u64, wanted: usize, other: u64)
    requires
        sessions.buffers.contains_key(task),
    ensures
        ({
            let waiting = sessions.buffers[task];
            let after = sessions.after_read(task, wanted);
            &&& sessions.readable(task, wanted) is Some <==> waiting.len() >= wanted
            &&& sessions.readable(task, wanted) matches Some(bytes) ==> {
                &&& bytes.len() == wanted
                &&& forall|i: int| 0 <= i < wanted ==> #[trigger] bytes[i] == waiting[i]
                &&& after.buffers.contains_key(task)
                &&& after.buffers[task].len() == waiting.len() - wanted
                &&& bytes + after.buffers[task] == waiting
            }
            &&& sessions.readable(task, wanted) is None ==> after == sessions
            &&& after.tasks == sessions.tasks
            &&& after.created == sessions.created
            &&& after.buffers.contains_key(other) <==> sessions.buffers.contains_key(other)
            &&& other != task ==> after.buffers[other] == sessions.buffers[other]
        }),
{
    let waiting = sessions.buffers[task];
    if waiting.len() >= wanted {
        assert(waiting.take(wanted as int) + waiting.skip(wanted as int) =~= waiting);
    }
}

/// A datagram for a connection that is not read from any more is dropped.
pub proof fn law_datagrams_for_nobody_are_dropped(
    sessions: UdpSessions,
    address: SocketAddr,
    bytes: Seq<u8>,
)
    requires
        sessions.tasks.contains_key(address),
        !sessions.buffers.contains_key(sessions.tasks[address]),
    ensures
        sessions.after_datagram(address, bytes) == sessions,
{
}

/// From a connection that is not read from any more nothing can be read.
pub proof fn law_released_connections_give_nothing(
    sessions: UdpSessions,
    task: u64,
    wanted: usize,
)
    requires
        !sessions.buffers.contains_key(task),
    ensures
        sessions.readable(task, wanted) is None,
        sessions.after_read(task, wanted) == sessions,
{
}

/// Datagrams are kept whole: every byte of a datagram from a client with a connection
/// waits to be read after those that waited before, however long the datagram is and
/// whatever the client's address, and nothing else changes.
pub proof fn law_datagrams_are_kept_whole(
    sessions: UdpSessions,
    address: SocketAddr,
    bytes: Seq<u8>,
    other: u64,
)
    requires
        sessions.tasks.contains_key(address),
        sessions.buffers.contains_key(sessions.tasks[address]),
    ensures
        ({
            let task = sessions.tasks[address];
            let before = sessions.buffers[task];
            let after = sessions.after_datagram(address, bytes);
            &&& after.buffers.contains_key(task)
            &&& after.buffers[task].len() == before.len() + bytes.len()
            &&& forall|i: int|
                0 <= i < before.len() ==> #[trigger] after.buffers[task][i] == before[i]
            &&& forall|i: int|
                0 <= i < bytes.len() ==> after.buffers[task][before.len() + i]
                    == #[trigger] bytes[i]
            &&& after.tasks == sessions.tasks
            &&& after.created == sessions.created
            &&& after.buffers.contains_key(other) <==> sessions.buffers.contains_key(other)
            &&& other != task ==> after.buffers[other] == sessions.buffers[other]
        }),
{
}

/// Every client without a connection gets one with its first datagram, whatever its
/// address is and whatever the datagram holds: it has a task that no client had before,
/// nothing waits to be read from it, and all other connections stay as they are.
pub proof fn law_every_new_client_gets_a_connection(
    sessions: UdpSessions,
    address: SocketAddr,
    bytes: Seq<u8>,
    other: SocketAddr,
    task: u64,
)
    requires
        sessions.wf(),
        sessions.created < u64::MAX,
        !sessions.tasks.contains_key(address),
    ensures
        ({
            let after = sessions.after_datagram(address, bytes);
            &&& after.tasks.contains_key(address)
            &&& after.tasks[address] == sessions.created
            &&& after.created == sessions.created + 1
            &&& after.buffers.contains_key(after.tasks[address])
            &&& after.buffers[after.tasks[address]].len() == 0
            &&& other != address ==> {
                &&& after.tasks.contains_key(other) <==> sessions.tasks.contains_key(other)
                &&& after.tasks[other] == sessions.tasks[other]
            }
            &&& after.buffers.contains_key(task) <==> sessions.buffers.contains_key(task) || task
                == sessions.created
            &&& sessions.buffers.contains_key(task) ==> after.buffers[task]
                == sessions.buffers[task]
        }),
{
}

/// Closing a connection takes exactly its address, and releasing one exactly its bytes.
pub proof fn law_closing_takes_one_connection(
    sessions: UdpSessions,
    address: SocketAddr,
    other_address: SocketAddr,
    task: u64,
    other_task: u64,
)
    ensures
        sessions.after_disconnection(address).tasks.contains_key(other_address) <==> {
            &&& sessions.tasks.contains_key(other_address)
            &&& other_address != address
        },
        other_address != address ==> sessions.after_disconnection(address).tasks[other_address]
            == sessions.tasks[other_address],
        sessions.after_disconnection(address).buffers == sessions.buffers,
        sessions.after_disconnection(address).created == sessions.created,
        sessions.after_release(task).buffers.contains_key(other_task) <==> {
            &&& sessions.buffers.contains_key(other_task)
            &&& other_task != task
        },
        other_task != task ==> sessions.after_release(task).buffers[other_task]
            == sessions.buffers[other_task],
        sessions.after_release(task).tasks == sessions.tasks,
        sessions.after_release(task).created == sessions.created,
{
}

/// On the client's side too datagrams are kept whole and reads are exact: a read takes
/// the first bytes that wait, as many as are wanted, if there are so many, and nothing
/// otherwise.
pub proof fn law_client_reads_are_exact(waiting: Seq<u8>, bytes: Seq<u8>, wanted: usize)
    ensures
        ({
            let received = waiting_after(waiting, UdpClientEvent::Datagram(bytes));
            &&& received.len() == waiting.len() + bytes.len()
            &&& forall|i: int| 0 <= i < waiting.len() ==> #[trigger] received[i] == waiting[i]
            &&& forall|i: int|
                0 <= i < bytes.len() ==> received[waiting.len() + i] == #[trigger] bytes[i]
        }),
        ({
            let left = waiting_after(waiting, UdpClientEvent::Read(wanted));
            &&& waiting.len() < wanted ==> left == waiting
            &&& waiting.len() >= wanted ==> {
                &&& left.len() == waiting.len() - wanted
                &&& forall|i: int| 0 <= i < left.len() ==> #[trigger] left[i] == waiting[wanted + i]
            }
        }),
{
}

/// Bytes are taken as they are.
pub proof fn law_views_keep_bytes(bytes: Vec<u8>)
    ensures
        viewed_bytes(Some(bytes)) == Some(bytes@),
        viewed_bytes(None) is None,
{
}

} // verus!
