//! How packets travel over a stream of bytes.
use crate::address::SocketAddr;
use crate::connection::MaxPacketSize;
use crate::packet_length_serializer;
use crate::packet_length_serializer::{PacketLengthDeserializationError, PacketLengthSerializer};
use crate::serializer::Serializer;
use vstd::prelude::*;

verus! {

/// A read-write stream between the client and the server.
pub trait NetworkStream: Send + Sync + Sized + 'static {
    /// The address of the remote peer.
    spec fn spec_peer_addr(&self) -> SocketAddr;

    /// The address of the local half.
    spec fn spec_local_addr(&self) -> SocketAddr;

    /// Returns the socket address of the remote peer of this connection.
    fn peer_addr(&self) -> (address: SocketAddr)
        ensures
            address == self.spec_peer_addr(),
    ;

    /// Returns the socket address of the local half of this connection.
    fn local_addr(&self) -> (address: SocketAddr)
        ensures
            address == self.spec_local_addr(),
    ;
}

/// A [`NetworkStream`] that can be used on the server's side.
pub trait ServerStream: NetworkStream {

}

/// The errors of a stream that the library gives itself.
#[derive(Debug, Clone, Copy, PartialEq, Eq, Structural)]
pub enum StreamErrorKind {
    /// Not everything was written.
    BrokenPipe,
    /// Not everything is there yet.
    WouldBlock,
}

// ---------------------------------------------------------------------------
// Receiving.

/// Why no packet comes out of a connection. `Io` is the error of the stream. Its text
/// is [`ReceiveError::debug_text`].
pub enum ReceiveError<Io, SerializerError, LengthError> {
    /// The stream failed.
    Io(Io),
    /// The packet could not be deserialized.
    Deserialization(SerializerError),
    /// The length of the packet could not be deserialized.
    LengthDeserialization(LengthError),
    /// The packet is larger than the limit.
    PacketTooBig,
    /// The connection could not be established.
    NoConnection(Io),
    /// The connection was closed on purpose.
    IntentionalDisconnection,
}

impl<Io, SerializerError, LengthError> ReceiveError<Io, SerializerError, LengthError> {
    /// The error as a text for people, where `error` is the text of what it holds.
    pub open spec fn spec_debug_text(self, error: Seq<char>) -> Seq<char> {
        match self {
            ReceiveError::Io(_) => "ReceiveError::Io("@ + error + ")"@,
            ReceiveError::Deserialization(_) => "ReceiveError::Deserialization("@ + error + ")"@,
            ReceiveError::LengthDeserialization(_) => "ReceiveError::LengthDeserialization("@
                + error + ")"@,
            ReceiveError::PacketTooBig => "ReceiveError::PacketTooBig"@,
            ReceiveError::NoConnection(_) => "ReceiveError::NoConnection("@ + error + ")"@,
            ReceiveError::IntentionalDisconnection => "ReceiveError::IntentionalDisconnection"@,
        }
    }

    /// The error as a text for people, where `error` is the text of what it holds.
    pub fn debug_text(&self, error: &str) -> (debug: String)
        ensures
            debug@ == self.spec_debug_text(error@),
    {
        let mut debug: String = String::new();
        match self {
            ReceiveError::Io(_) => debug.append("ReceiveError::Io("),
            ReceiveError::Deserialization(_) => debug.append("ReceiveError::Deserialization("),
            ReceiveError::LengthDeserialization(_) => debug.append(
                "ReceiveError::LengthDeserialization(",
            ),
            ReceiveError::PacketTooBig => {
                debug.append("ReceiveError::PacketTooBig");
                return debug;
            },
            ReceiveError::NoConnection(_) => debug.append("ReceiveError::NoConnection("),
            ReceiveError::IntentionalDisconnection => {
                debug.append("ReceiveError::IntentionalDisconnection");
                return debug;
            },
        }
        debug.append(error);
        debug.append(")");
        debug
    }
}

/// How far a packet has been read.
pub enum PacketReader {
    /// `prefix` was read, and `wanted` further bytes are to be read before the
    /// length is looked for in it.
    Length { prefix: Vec<u8>, wanted: usize },
    /// The length is known: `wanted` bytes are to be read, which are the packet.
    Body { wanted: usize },
}

/// The mathematical form of [`PacketReader`].
pub ghost enum ReadState {
    Length { prefix: Seq<u8>, wanted: usize },
    Body { wanted: usize },
}

impl ReadState {
    /// How many bytes are read next.
    pub open spec fn wanted(self) -> usize {
        match self {
            ReadState::Length { wanted, .. } => wanted,
            ReadState::Body { wanted } => wanted,
        }
    }

    /// Before anything was read.
    pub open spec fn start<LS: PacketLengthSerializer>() -> ReadState {
        ReadState::Length { prefix: Seq::empty(), wanted: LS::SIZE }
    }

    /// Whether a length can be looked for after the next read, whatever is read.
    pub open spec fn ready<LS: PacketLengthSerializer>(self, length_serializer: LS) -> bool {
        match self {
            ReadState::Length { prefix, wanted } => forall|more: Seq<u8>|
                more.len() == wanted ==> length_serializer.accepts(#[trigger] (prefix + more)),
            ReadState::Body { .. } => true,
        }
    }
}

/// What a successful read leads to.
pub ghost enum ReadOutcome<LengthError> {
    /// More is to be read.
    Continue(ReadState),
    /// The packet is complete.
    Payload(Seq<u8>),
    /// The packet is larger than the limit.
    TooBig,
    /// There is no length.
    BadLength(LengthError),
}

/// What reading `bytes` leads to.
pub open spec fn after_read<LS: PacketLengthSerializer>(
    state: ReadState,
    length_serializer: LS,
    limit: MaxPacketSize,
    bytes: Seq<u8>,
) -> ReadOutcome<LS::Error> {
    match state {
        ReadState::Length { prefix, .. } => match length_serializer.decoded(prefix + bytes) {
            Ok(length) => if length > limit.0 {
                ReadOutcome::TooBig
            } else {
                ReadOutcome::Continue(ReadState::Body { wanted: length })
            },
            Err(PacketLengthDeserializationError::NeedMoreBytes(amount)) => ReadOutcome::Continue(
                ReadState::Length { prefix: prefix + bytes, wanted: amount },
            ),
            Err(PacketLengthDeserializationError::Error(error)) => ReadOutcome::BadLength(error),
        },
        ReadState::Body { .. } => ReadOutcome::Payload(bytes),
    }
}

/// What is to be done after a read.
pub enum ReceiveProgress<ReceivingPacket, Io, SerializerError, LengthError> {
    /// Fill a buffer of [`PacketReader::wanted`] bytes.
    Read(PacketReader),
    /// Nothing: this is what was received.
    Done(Result<ReceivingPacket, ReceiveError<Io, SerializerError, LengthError>>),
}

impl PacketReader {
    /// The mathematical form of the reader.
    pub open spec fn state(self) -> ReadState {
        match self {
            PacketReader::Length { prefix, wanted } => ReadState::Length { prefix: prefix@, wanted },
            PacketReader::Body { wanted } => ReadState::Body { wanted },
        }
    }

    /// Starts to read a packet.
    pub fn new<LS: PacketLengthSerializer>(length_serializer: &LS) -> (reader: PacketReader)
        ensures
            reader.state() == ReadState::start::<LS>(),
            reader.state().ready(*length_serializer),
    {
        let reader: PacketReader = PacketReader::Length { prefix: Vec::new(), wanted: LS::SIZE };
        proof {
            assert(Seq::<u8>::empty() =~= reader->prefix@);
            assert forall|more: Seq<u8>|
                more.len() == LS::SIZE implies length_serializer.accepts(
                #[trigger] (Seq::<u8>::empty() + more),
            ) by {
                length_serializer.accepts_first_bytes(Seq::<u8>::empty() + more);
            }
        }
        reader
    }

    /// How many bytes are to be read next.
    pub fn wanted(&self) -> (wanted: usize)
        ensures
            wanted == self.state().wanted(),
    {
        match self {
            PacketReader::Length { wanted, .. } => *wanted,
            PacketReader::Body { wanted } => *wanted,
        }
    }

    /// Takes the result of the next read: the bytes, as many as are wanted, or the
    /// error of the stream. A packet that is complete is deserialized.
    pub fn advance<ReceivingPacket, SendingPacket, S, LS, Io>(
        self,
        read: Result<Vec<u8>, Io>,
        serializer: &mut S,
        length_serializer: &LS,
        limit: MaxPacketSize,
    ) -> (progress: ReceiveProgress<ReceivingPacket, Io, S::Error, LS::Error>) where
        S: Serializer<ReceivingPacket, SendingPacket>,
        LS: PacketLengthSerializer,

        requires
            self.state().ready(*length_serializer),
            read matches Ok(bytes) ==> bytes@.len() == self.state().wanted(),
        ensures
            (match read {
                Err(error) => {
                    &&& progress == ReceiveProgress::<
                        ReceivingPacket,
                        Io,
                        S::Error,
                        LS::Error,
                    >::Done(Err(ReceiveError::Io(error)))
                    &&& *final(serializer) == *old(serializer)
                },
                Ok(bytes) => match after_read(self.state(), *length_serializer, limit, bytes@) {
                    ReadOutcome::Continue(state) => {
                        &&& progress matches ReceiveProgress::Read(reader)
                        &&& reader.state() == state
                        &&& reader.state().ready(*length_serializer)
                        &&& *final(serializer) == *old(serializer)
                    },
                    ReadOutcome::TooBig => {
                        &&& progress == ReceiveProgress::<
                            ReceivingPacket,
                            Io,
                            S::Error,
                            LS::Error,
                        >::Done(Err(ReceiveError::PacketTooBig))
                        &&& *final(serializer) == *old(serializer)
                    },
                    ReadOutcome::BadLength(error) => {
                        &&& progress == ReceiveProgress::<
                            ReceivingPacket,
                            Io,
                            S::Error,
                            LS::Error,
                        >::Done(Err(ReceiveError::LengthDeserialization(error)))
                        &&& *final(serializer) == *old(serializer)
                    },
                    ReadOutcome::Payload(payload) => match progress {
                        ReceiveProgress::Done(Ok(packet)) => S::deserialized(
                            *old(serializer),
                            payload,
                            *final(serializer),
                            Ok(packet),
                        ),
                        ReceiveProgress::Done(Err(ReceiveError::Deserialization(error))) =>
                        S::deserialized(
                            *old(serializer),
                            payload,
                            *final(serializer),
                            Err(error),
                        ),
                        _ => false,
                    },
                },
            }),
    {
        let bytes: Vec<u8> = match read {
            Ok(bytes) => bytes,
            Err(error) => {
                return ReceiveProgress::Done(Err(ReceiveError::Io(error)));
            },
        };
        match self {
            PacketReader::Length { prefix, wanted } => {
                let mut buffer: Vec<u8> = prefix;
                buffer.extend_from_slice(bytes.as_slice());
                assert(buffer@ =~= prefix@ + bytes@);
                match length_serializer.deserialize_packet_length(buffer.as_slice()) {
                    Ok(length) => {
                        if length > limit.0 {
                            ReceiveProgress::Done(Err(ReceiveError::PacketTooBig))
                        } else {
                            ReceiveProgress::Read(PacketReader::Body { wanted: length })
                        }
                    },
                    Err(PacketLengthDeserializationError::NeedMoreBytes(amount)) => {
                        proof {
                            assert forall|more: Seq<u8>|
                                more.len() == amount implies length_serializer.accepts(
                                #[trigger] (buffer@ + more),
                            ) by {
                                length_serializer.accepts_more_bytes(buffer@, more);
                            }
                        }
                        ReceiveProgress::Read(
                            PacketReader::Length { prefix: buffer, wanted: amount },
                        )
                    },
                    Err(PacketLengthDeserializationError::Error(error)) => {
                        ReceiveProgress::Done(Err(ReceiveError::LengthDeserialization(error)))
                    },
                }
            },
            PacketReader::Body { .. } => match serializer.deserialize(bytes.as_slice()) {
                Ok(packet) => ReceiveProgress::Done(Ok(packet)),
                Err(error) => ReceiveProgress::Done(Err(ReceiveError::Deserialization(error))),
            },
        }
    }
}

// ---------------------------------------------------------------------------
// Sending.

/// What goes over the stream for a packet whose bytes are `payload`: the length of
/// the packet, and the packet.
pub open spec fn framed<LS: PacketLengthSerializer>(
    length_serializer: LS,
    payload: Seq<u8>,
) -> Result<Seq<u8>, LS::Error> {
    match length_serializer.encoded(payload.len() as usize) {
        Ok(prefix) => Ok(prefix + payload),
        Err(error) => Err(error),
    }
}

/// Puts the length of a packet in front of its bytes.
pub fn frame<LS: PacketLengthSerializer>(payload: &[u8], length_serializer: &LS) -> (result: Result<
    Vec<u8>,
    LS::Error,
>)
    ensures
        packet_length_serializer::viewed(result) == framed(*length_serializer, payload@),
{
    match length_serializer.serialize_packet_length(payload.len()) {
        Ok(prefix) => {
            let mut buffer: Vec<u8> = prefix;
            buffer.extend_from_slice(payload);
            assert(buffer@ =~= prefix@ + payload@);
            Ok(buffer)
        },
        Err(error) => Err(error),
    }
}

/// Why a packet cannot be sent, whatever the stream does.
#[derive(Debug)]
pub enum EncodeError<SerializerError, LengthError> {
    /// The packet could not be serialized.
    Serialization(SerializerError),
    /// The length of the packet could not be serialized.
    LengthSerialization(LengthError),
}

/// Turns a packet into the bytes that go over the stream.
pub fn encode_packet<ReceivingPacket, SendingPacket, S, LS>(
    packet: SendingPacket,
    serializer: &mut S,
    length_serializer: &LS,
) -> (result: Result<Vec<u8>, EncodeError<S::Error, LS::Error>>) where
    S: Serializer<ReceivingPacket, SendingPacket>,
    LS: PacketLengthSerializer,

    ensures
        (match result {
            Ok(bytes) => exists|payload: Seq<u8>|
                {
                    &&& payload.len() <= usize::MAX
                    &&& #[trigger] S::serialized(
                        *old(serializer),
                        packet,
                        *final(serializer),
                        Ok(payload),
                    )
                    &&& framed(*length_serializer, payload) == Ok::<Seq<u8>, LS::Error>(bytes@)
                },
            Err(EncodeError::Serialization(error)) => S::serialized(
                *old(serializer),
                packet,
                *final(serializer),
                Err(error),
            ),
            Err(EncodeError::LengthSerialization(error)) => exists|payload: Seq<u8>|
                {
                    &&& payload.len() <= usize::MAX
                    &&& #[trigger] S::serialized(
                        *old(serializer),
                        packet,
                        *final(serializer),
                        Ok(payload),
                    )
                    &&& framed(*length_serializer, payload) == Err::<Seq<u8>, LS::Error>(error)
                },
        }),
{
    match serializer.serialize(packet) {
        Ok(serialized) => {
            assert(S::serialized(*old(serializer), packet, *serializer, Ok(serialized@)));
            assert(serialized@.len() == serialized.len());
            match frame(serialized.as_slice(), length_serializer) {
                Ok(bytes) => Ok(bytes),
                Err(error) => Err(EncodeError::LengthSerialization(error)),
            }
        },
        Err(error) => Err(EncodeError::Serialization(error)),
    }
}

// ---------------------------------------------------------------------------
// Laws.

/// What comes out of a stream of bytes.
pub ghost enum StreamOutcome<LengthError> {
    /// A packet, and what follows it in the stream.
    Packet { payload: Seq<u8>, rest: Seq<u8> },
    /// A packet that is larger than the limit.
    TooBig,
    /// Something that is no length.
    BadLength(LengthError),
    /// Nothing yet: more bytes have to come.
    Starved,
    /// Nothing ever: the length serializer asks for no bytes over and over.
    Stuck,
}

/// What a reader in the state `state` gets out of `stream`, when every read takes
/// as many bytes from it as are wanted.
pub open spec fn received<LS: PacketLengthSerializer>(
    state: ReadState,
    length_serializer: LS,
    limit: MaxPacketSize,
    stream: Seq<u8>,
) -> StreamOutcome<LS::Error>
    decreases
            stream.len(),
            if state is Length {
                1int
            } else {
                0
            },
{
    let wanted = state.wanted() as int;
    if stream.len() < wanted {
        StreamOutcome::Starved
    } else {
        match after_read(state, length_serializer, limit, stream.take(wanted)) {
            ReadOutcome::Continue(next) => if wanted == 0 && next is Length {
                StreamOutcome::Stuck
            } else {
                received(next, length_serializer, limit, stream.skip(wanted))
            },
            ReadOutcome::Payload(payload) => StreamOutcome::Packet {
                payload,
                rest: stream.skip(wanted),
            },
            ReadOutcome::TooBig => StreamOutcome::TooBig,
            ReadOutcome::BadLength(error) => StreamOutcome::BadLength(error),
        }
    }
}

/// The length that a reader in the state `state` finds at the start of `stream`, and
/// what follows it, when every read takes as many bytes from it as are wanted.
pub open spec fn length_received<LS: PacketLengthSerializer>(
    state: ReadState,
    length_serializer: LS,
    stream: Seq<u8>,
) -> Option<(usize, Seq<u8>)>
    decreases stream.len(),
{
    match state {
        ReadState::Length { prefix, wanted } => if stream.len() < wanted {
            None
        } else {
            match length_serializer.decoded(prefix + stream.take(wanted as int)) {
                Ok(length) => Some((length, stream.skip(wanted as int))),
                Err(PacketLengthDeserializationError::NeedMoreBytes(amount)) => if wanted == 0 {
                    None
                } else {
                    length_received(
                        ReadState::Length {
                            prefix: prefix + stream.take(wanted as int),
                            wanted: amount,
                        },
                        length_serializer,
                        stream.skip(wanted as int),
                    )
                },
                Err(PacketLengthDeserializationError::Error(_)) => None,
            }
        },
        ReadState::Body { .. } => None,
    }
}

/// Whether every length up to `max` can be written, and is found again at the start
/// of a stream that begins with what was written, with nothing else taken from it.
/// The prefix may have any number of bytes.
pub open spec fn reads_back_up_to<LS: PacketLengthSerializer>(
    length_serializer: LS,
    max: usize,
) -> bool {
    &&& forall|length: usize|
        length <= max ==> #[trigger] length_serializer.encoded(length) is Ok
    &&& forall|length: usize, tail: Seq<u8>|
        length <= max ==> length_received(
            ReadState::start::<LS>(),
            length_serializer,
            #[trigger] (length_serializer.encoded(length)->Ok_0 + tail),
        ) == Some((length, tail))
}

/// A prefix of fixed size that reads back is found again in a stream.
pub proof fn law_fixed_size_prefix_reads_back<LS: PacketLengthSerializer>(
    length_serializer: LS,
    max: usize,
)
    requires
        packet_length_serializer::round_trips_up_to(length_serializer, max),
    ensures
        reads_back_up_to(length_serializer, max),
{
    assert forall|length: usize, tail: Seq<u8>| length <= max implies length_received(
        ReadState::start::<LS>(),
        length_serializer,
        #[trigger] (length_serializer.encoded(length)->Ok_0 + tail),
    ) == Some((length, tail)) by {
        let prefix = length_serializer.encoded(length)->Ok_0;
        let stream = prefix + tail;
        assert(stream.take(LS::SIZE as int) =~= prefix);
        assert(Seq::<u8>::empty() + prefix =~= prefix);
        assert(stream.skip(LS::SIZE as int) =~= tail);
    }
}

/// The numbers that come with the library are such prefixes, in both byte orders, for
/// every length that they can hold.
pub proof fn law_number_prefixes_read_back<N: packet_length_serializer::LengthNumber>(
    little: packet_length_serializer::LittleEndian<N>,
    big: packet_length_serializer::BigEndian<N>,
)
    ensures
        reads_back_up_to(little, packet_length_serializer::max_length(N::width())),
        reads_back_up_to(big, packet_length_serializer::max_length(N::width())),
{
    let max = packet_length_serializer::max_length(N::width());
    packet_length_serializer::law_little_endian_round_trip(little);
    packet_length_serializer::law_big_endian_round_trip(big);
    law_fixed_size_prefix_reads_back(little, max);
    law_fixed_size_prefix_reads_back(big, max);
}

proof fn lemma_packet_follows_length<LS: PacketLengthSerializer>(
    state: ReadState,
    length_serializer: LS,
    limit: MaxPacketSize,
    stream: Seq<u8>,
    length: usize,
    tail: Seq<u8>,
)
    requires
        length_received(state, length_serializer, stream) == Some((length, tail)),
    ensures
        length <= limit.0 ==> received(state, length_serializer, limit, stream) == received(
            ReadState::Body { wanted: length },
            length_serializer,
            limit,
            tail,
        ),
        length > limit.0 ==> received(state, length_serializer, limit, stream)
            == StreamOutcome::<LS::Error>::TooBig,
    decreases stream.len(),
{
    let wanted = state.wanted() as int;
    if let ReadState::Length { prefix, .. } = state {
        let bytes = stream.take(wanted);
        if let Err(PacketLengthDeserializationError::NeedMoreBytes(amount)) =
            length_serializer.decoded(prefix + bytes) {
            lemma_packet_follows_length(
                ReadState::Length { prefix: prefix + bytes, wanted: amount },
                length_serializer,
                limit,
                stream.skip(wanted),
                length,
                tail,
            );
        }
    }
}

/// What is sent is what is received: a packet that was framed comes out of the
/// stream as it was, and leaves in the stream exactly what was sent after it. This
/// holds up to the limit on the size of packets; one that is larger is refused.
pub proof fn law_sent_packet_is_received<LS: PacketLengthSerializer>(
    length_serializer: LS,
    max: usize,
    limit: MaxPacketSize,
    payload: Seq<u8>,
    rest: Seq<u8>,
)
    requires
        reads_back_up_to(length_serializer, max),
        payload.len() <= max,
    ensures
        framed(length_serializer, payload) is Ok,
        payload.len() <= limit.0 ==> received(
            ReadState::start::<LS>(),
            length_serializer,
            limit,
            framed(length_serializer, payload)->Ok_0 + rest,
        ) == (StreamOutcome::<LS::Error>::Packet { payload, rest }),
        payload.len() > limit.0 ==> received(
            ReadState::start::<LS>(),
            length_serializer,
            limit,
            framed(length_serializer, payload)->Ok_0 + rest,
        ) == StreamOutcome::<LS::Error>::TooBig,
{
    let length = payload.len() as usize;
    let prefix = length_serializer.encoded(length)->Ok_0;
    let tail = payload + rest;
    let stream = framed(length_serializer, payload)->Ok_0 + rest;
    assert(stream =~= prefix + tail);
    lemma_packet_follows_length(
        ReadState::start::<LS>(),
        length_serializer,
        limit,
        stream,
        length,
        tail,
    );
    assert(tail.take(length as int) =~= payload);
    assert(tail.skip(length as int) =~= rest);
}

/// The frames of several packets, one after the other.
pub open spec fn all_framed<LS: PacketLengthSerializer>(
    length_serializer: LS,
    payloads: Seq<Seq<u8>>,
) -> Seq<u8>
    decreases payloads.len(),
{
    if payloads.len() == 0 {
        Seq::empty()
    } else {
        framed(length_serializer, payloads[0])->Ok_0 + all_framed(
            length_serializer,
            payloads.skip(1),
        )
    }
}

/// The first `count` packets that come out of `stream` and what follows them in it, or
/// `None` if there are not so many.
pub open spec fn all_received<LS: PacketLengthSerializer>(
    length_serializer: LS,
    limit: MaxPacketSize,
    stream: Seq<u8>,
    count: nat,
) -> Option<(Seq<Seq<u8>>, Seq<u8>)>
    decreases count,
{
    if count == 0 {
        Some((Seq::empty(), stream))
    } else {
        match received(ReadState::start::<LS>(), length_serializer, limit, stream) {
            StreamOutcome::Packet { payload, rest } => match all_received(
                length_serializer,
                limit,
                rest,
                (count - 1) as nat,
            ) {
                Some((later, end)) => Some((seq![payload] + later, end)),
                None => None,
            },
            _ => None,
        }
    }
}

/// Packets come out of the stream in the order in which they were sent, none lost,
/// none twice and none changed, and what is left in the stream is exactly what was
/// sent after them.
pub proof fn law_sent_packets_are_received_in_order<LS: PacketLengthSerializer>(
    length_serializer: LS,
    max: usize,
    limit: MaxPacketSize,
    payloads: Seq<Seq<u8>>,
    rest: Seq<u8>,
)
    requires
        reads_back_up_to(length_serializer, max),
        forall|i: int|
            0 <= i < payloads.len() ==> #[trigger] payloads[i].len() <= max && payloads[i].len()
                <= limit.0,
    ensures
        all_received(
            length_serializer,
            limit,
            all_framed(length_serializer, payloads) + rest,
            payloads.len(),
        ) == Some((payloads, rest)),
    decreases payloads.len(),
{
    if payloads.len() > 0 {
        let later = payloads.skip(1);
        assert forall|i: int| 0 <= i < later.len() implies #[trigger] later[i].len() <= max
            && later[i].len() <= limit.0 by {
            assert(later[i] == payloads[i + 1]);
        }
        law_sent_packets_are_received_in_order(length_serializer, max, limit, later, rest);
        let frame = framed(length_serializer, payloads[0])->Ok_0;
        let after = all_framed(length_serializer, later) + rest;
        law_sent_packet_is_received(length_serializer, max, limit, payloads[0], after);
        assert(all_framed(length_serializer, payloads) + rest =~= frame + after);
        assert(seq![payloads[0]] + later =~= payloads);
    } else {
        assert(payloads =~= Seq::empty());
        assert(all_framed(length_serializer, payloads) + rest =~= rest);
    }
}

/// Whether a serializer that is `senders[i]` before the i-th packet and `senders[i + 1]`
/// after it may turn `packets` into `payloads`.
pub open spec fn serialized_in_turn<
    ReceivingPacket,
    SendingPacket,
    S: Serializer<ReceivingPacket, SendingPacket>,
>(senders: Seq<S>, packets: Seq<SendingPacket>, payloads: Seq<Seq<u8>>) -> bool {
    &&& senders.len() == packets.len() + 1
    &&& payloads.len() == packets.len()
    &&& forall|i: int| #![trigger packets[i]]
        0 <= i < packets.len() ==> S::serialized(
            senders[i],
            packets[i],
            senders[i + 1],
            Ok(payloads[i]),
        )
}

/// Whether a serializer that is `receivers[i]` before the i-th payload and
/// `receivers[i + 1]` after it may turn `payloads` into `results`.
pub open spec fn deserialized_in_turn<
    ReceivingPacket,
    SendingPacket,
    R: Serializer<ReceivingPacket, SendingPacket>,
>(
    receivers: Seq<R>,
    payloads: Seq<Seq<u8>>,
    results: Seq<Result<ReceivingPacket, R::Error>>,
) -> bool {
    &&& receivers.len() == payloads.len() + 1
    &&& results.len() == payloads.len()
    &&& forall|i: int| #![trigger results[i]]
        0 <= i < payloads.len() ==> R::deserialized(
            receivers[i],
            payloads[i],
            receivers[i + 1],
            results[i],
        )
}

/// Whether whatever `receivers[i]` makes of `payloads[i]` is `packets[i]`, for every i.
pub open spec fn read_as_packets<
    ReceivingPacket,
    SendingPacket,
    R: Serializer<ReceivingPacket, SendingPacket>,
>(
    receivers: Seq<R>,
    payloads: Seq<Seq<u8>>,
    packets: Seq<ReceivingPacket>,
) -> bool {
    forall|i: int, after: R, result: Result<ReceivingPacket, R::Error>|
        0 <= i < packets.len() && #[trigger] R::deserialized(
            receivers[i],
            payloads[i],
            after,
            result,
        ) ==> result == Ok::<ReceivingPacket, R::Error>(packets[i])
}

/// Packets are received as they were sent, through any two serializers of which one
/// undoes what the other does. A sender serializes `packets` one after the other and
/// sends the `payloads` as frames; `rest` is what it sends after them. A receiver that
/// reads the i-th payload as `packets[i]` only gets exactly these packets, in order, and
/// leaves exactly `rest` unread.
pub proof fn law_packets_come_back<
    Packet,
    Answer,
    S: Serializer<Answer, Packet>,
    R: Serializer<Packet, Answer>,
    LS: PacketLengthSerializer,
>(
    length_serializer: LS,
    max: usize,
    limit: MaxPacketSize,
    senders: Seq<S>,
    packets: Seq<Packet>,
    payloads: Seq<Seq<u8>>,
    rest: Seq<u8>,
    receivers: Seq<R>,
    results: Seq<Result<Packet, R::Error>>,
)
    requires
        reads_back_up_to(length_serializer, max),
        forall|i: int|
            0 <= i < payloads.len() ==> #[trigger] payloads[i].len() <= max && payloads[i].len()
                <= limit.0,
        serialized_in_turn::<Answer, Packet, S>(senders, packets, payloads),
        results.len() == packets.len(),
        read_as_packets(receivers, payloads, packets),
        all_received(
            length_serializer,
            limit,
            all_framed(length_serializer, payloads) + rest,
            packets.len(),
        ) matches Some((read, left)) ==> deserialized_in_turn::<Packet, Answer, R>(
            receivers,
            read,
            results,
        ),
    ensures
        all_received(
            length_serializer,
            limit,
            all_framed(length_serializer, payloads) + rest,
            packets.len(),
        ) == Some((payloads, rest)),
        forall|i: int|
            0 <= i < packets.len() ==> #[trigger] results[i] == Ok::<Packet, R::Error>(packets[i]),
{
    law_sent_packets_are_received_in_order(length_serializer, max, limit, payloads, rest);
    assert forall|i: int| 0 <= i < packets.len() implies #[trigger] results[i] == Ok::<
        Packet,
        R::Error,
    >(packets[i]) by {
        assert(R::deserialized(receivers[i], payloads[i], receivers[i + 1], results[i]));
    }
}

/// Whether receivers undo what senders do: where a sender and a receiver are in step,
/// the receiver makes of what the sender made of a packet the same packet again, and
/// the two are in step after it. `same` says which packets count as the same, and
/// `in_step` which serializers are in step: of ciphers those whose keys agree, of
/// serializers without state it may hold at all times.
pub open spec fn undoes<
    Packet,
    Answer,
    S: Serializer<Answer, Packet>,
    R: Serializer<Packet, Answer>,
>(in_step: spec_fn(S, R) -> bool, same: spec_fn(Packet, Packet) -> bool) -> bool {
    forall|
        sender: S,
        packet: Packet,
        payload: Seq<u8>,
        sent: S,
        receiver: R,
        received: R,
        result: Result<Packet, R::Error>,
    |
        in_step(sender, receiver) && #[trigger] S::serialized(sender, packet, sent, Ok(payload))
            && #[trigger] R::deserialized(receiver, payload, received, result) ==> {
            &&& result is Ok
            &&& same(result->Ok_0, packet)
            &&& in_step(sent, received)
        }
}

/// Packets are received as they were sent, in order and with nothing else taken from
/// the stream, as long as the sender's and the receiver's serializers start in step.
pub proof fn law_serializers_in_step_deliver_packets<
    Packet,
    Answer,
    S: Serializer<Answer, Packet>,
    R: Serializer<Packet, Answer>,
    LS: PacketLengthSerializer,
>(
    in_step: spec_fn(S, R) -> bool,
    same: spec_fn(Packet, Packet) -> bool,
    length_serializer: LS,
    max: usize,
    limit: MaxPacketSize,
    senders: Seq<S>,
    packets: Seq<Packet>,
    payloads: Seq<Seq<u8>>,
    rest: Seq<u8>,
    receivers: Seq<R>,
    results: Seq<Result<Packet, R::Error>>,
)
    requires
        undoes::<Packet, Answer, S, R>(in_step, same),
        reads_back_up_to(length_serializer, max),
        forall|i: int|
            0 <= i < payloads.len() ==> #[trigger] payloads[i].len() <= max && payloads[i].len()
                <= limit.0,
        serialized_in_turn::<Answer, Packet, S>(senders, packets, payloads),
        results.len() == packets.len(),
        in_step(senders[0], receivers[0]),
        all_received(
            length_serializer,
            limit,
            all_framed(length_serializer, payloads) + rest,
            packets.len(),
        ) matches Some((read, left)) ==> deserialized_in_turn::<Packet, Answer, R>(
            receivers,
            read,
            results,
        ),
    ensures
        all_received(
            length_serializer,
            limit,
            all_framed(length_serializer, payloads) + rest,
            packets.len(),
        ) == Some((payloads, rest)),
        forall|i: int|
            0 <= i < packets.len() ==> #[trigger] results[i] is Ok && same(
                results[i]->Ok_0,
                packets[i],
            ),
        in_step(senders.last(), receivers.last()),
{
    law_sent_packets_are_received_in_order(length_serializer, max, limit, payloads, rest);
    lemma_serializers_stay_in_step(
        in_step,
        same,
        senders,
        packets,
        payloads,
        receivers,
        results,
        packets.len() as int,
    );
}

proof fn lemma_serializers_stay_in_step<
    Packet,
    Answer,
    S: Serializer<Answer, Packet>,
    R: Serializer<Packet, Answer>,
>(
    in_step: spec_fn(S, R) -> bool,
    same: spec_fn(Packet, Packet) -> bool,
    senders: Seq<S>,
    packets: Seq<Packet>,
    payloads: Seq<Seq<u8>>,
    receivers: Seq<R>,
    results: Seq<Result<Packet, R::Error>>,
    count: int,
)
    requires
        undoes::<Packet, Answer, S, R>(in_step, same),
        0 <= count <= packets.len(),
        results.len() == packets.len(),
        serialized_in_turn::<Answer, Packet, S>(senders, packets, payloads),
        deserialized_in_turn::<Packet, Answer, R>(receivers, payloads, results),
        in_step(senders[0], receivers[0]),
    ensures
        in_step(senders[count], receivers[count]),
        forall|i: int|
            0 <= i < count ==> #[trigger] results[i] is Ok && same(results[i]->Ok_0, packets[i]),
    decreases count,
{
    if count > 0 {
        let last = count - 1;
        lemma_serializers_stay_in_step(
            in_step,
            same,
            senders,
            packets,
            payloads,
            receivers,
            results,
            last,
        );
        assert(S::serialized(senders[last], packets[last], senders[last + 1], Ok(payloads[last])));
        assert(R::deserialized(
            receivers[last],
            payloads[last],
            receivers[last + 1],
            results[last],
        ));
    }
}

/// A peer cannot make a buffer grow beyond the limit: a packet that is announced to
/// be larger is refused before any of it is read, and no more is read for a packet
/// than its length.
pub proof fn law_announced_size_is_limited<LS: PacketLengthSerializer>(
    state: ReadState,
    length_serializer: LS,
    limit: MaxPacketSize,
    bytes: Seq<u8>,
    length: usize,
)
    requires
        state is Length,
        length_serializer.decoded(state->prefix + bytes) == Ok::<
            usize,
            PacketLengthDeserializationError<LS::Error>,
        >(length),
    ensures
        length > limit.0 ==> after_read(state, length_serializer, limit, bytes)
            == ReadOutcome::<LS::Error>::TooBig,
        length <= limit.0 ==> after_read(state, length_serializer, limit, bytes)
            == ReadOutcome::<LS::Error>::Continue(ReadState::Body { wanted: length }),
        after_read(state, length_serializer, limit, bytes) matches ReadOutcome::Continue(next)
            ==> next.wanted() <= limit.0,
{
}

/// A packet is read step by step. First as many bytes are read as the length serializer
/// asks for; where it asks for more, so many more are read and put after those read
/// before. Then as many bytes are read as the length says, and these are the packet.
pub proof fn law_packets_are_read_step_by_step<LS: PacketLengthSerializer>(
    prefix: Seq<u8>,
    wanted: usize,
    length_serializer: LS,
    limit: MaxPacketSize,
    bytes: Seq<u8>,
)
    ensures
        ReadState::start::<LS>() is Length,
        ReadState::start::<LS>()->prefix.len() == 0,
        ReadState::start::<LS>().wanted() == LS::SIZE,
        (ReadState::Length { prefix, wanted }).wanted() == wanted,
        (ReadState::Body { wanted }).wanted() == wanted,
        after_read(ReadState::Body { wanted }, length_serializer, limit, bytes)
            == ReadOutcome::<LS::Error>::Payload(bytes),
        ({
            let outcome = after_read(
                ReadState::Length { prefix, wanted },
                length_serializer,
                limit,
                bytes,
            );
            match length_serializer.decoded(prefix + bytes) {
                Ok(length) => {
                    &&& length <= limit.0 ==> outcome == ReadOutcome::<LS::Error>::Continue(
                        ReadState::Body { wanted: length },
                    )
                    &&& length > limit.0 ==> outcome is TooBig
                },
                Err(PacketLengthDeserializationError::NeedMoreBytes(amount)) => {
                    &&& outcome matches ReadOutcome::Continue(next)
                    &&& next is Length
                    &&& next->prefix == prefix + bytes
                    &&& next.wanted() == amount
                },
                Err(PacketLengthDeserializationError::Error(error)) => outcome
                    == ReadOutcome::<LS::Error>::BadLength(error),
            }
        }),
{
}

/// A reader is in the state that its fields say.
pub proof fn law_readers_show_their_state(prefix: Vec<u8>, wanted: usize)
    ensures
        (PacketReader::Length { prefix, wanted }).state() == (ReadState::Length {
            prefix: prefix@,
            wanted,
        }),
        (PacketReader::Body { wanted }).state() == (ReadState::Body { wanted }),
{
}

/// Every packet whose length can be written can be framed, and no other one. The frame
/// is the length as it is written and after it every byte of the packet, unchanged.
pub proof fn law_frames_hold_the_whole_packet<LS: PacketLengthSerializer>(
    length_serializer: LS,
    payload: Seq<u8>,
)
    requires
        payload.len() <= usize::MAX,
    ensures
        ({
            let prefix = length_serializer.encoded(payload.len() as usize);
            &&& framed(length_serializer, payload) is Ok <==> prefix is Ok
            &&& framed(length_serializer, payload) matches Ok(frame) ==> {
                &&& frame.len() == prefix->Ok_0.len() + payload.len()
                &&& forall|i: int|
                    0 <= i < prefix->Ok_0.len() ==> #[trigger] frame[i] == prefix->Ok_0[i]
                &&& forall|i: int|
                    0 <= i < payload.len() ==> frame[prefix->Ok_0.len() + i]
                        == #[trigger] payload[i]
            }
            &&& framed(length_serializer, payload) matches Err(error) ==> prefix == Err::<
                Seq<u8>,
                LS::Error,
            >(error)
        }),
{
}

/// The text of an error is its name and, in brackets, the text of what it holds.
pub proof fn law_error_texts_name_the_error<Io, SerializerError, LengthError>(
    io: Io,
    serializer: SerializerError,
    length: LengthError,
    error: Seq<char>,
)
    ensures
        ReceiveError::<Io, SerializerError, LengthError>::Io(io).spec_debug_text(error)
            == "ReceiveError::Io("@ + error + ")"@,
        ReceiveError::<Io, SerializerError, LengthError>::Deserialization(
            serializer,
        ).spec_debug_text(error) == "ReceiveError::Deserialization("@ + error + ")"@,
        ReceiveError::<Io, SerializerError, LengthError>::LengthDeserialization(
            length,
        ).spec_debug_text(error) == "ReceiveError::LengthDeserialization("@ + error + ")"@,
        ReceiveError::<Io, SerializerError, LengthError>::PacketTooBig.spec_debug_text(error)
            == "ReceiveError::PacketTooBig"@,
        ReceiveError::<Io, SerializerError, LengthError>::NoConnection(io).spec_debug_text(error)
            == "ReceiveError::NoConnection("@ + error + ")"@,
        ReceiveError::<
            Io,
            SerializerError,
            LengthError,
        >::IntentionalDisconnection.spec_debug_text(error)
            == "ReceiveError::IntentionalDisconnection"@,
{
}

} // verus!
