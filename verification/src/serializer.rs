//! Implement the [`ReadOnlySerializer`] or the [`MutableSerializer`] trait to turn
//! packets into bytes and back in a way of your own.
//!
//! What a serializer does is stated as a relation between what goes in and what
//! comes out, so that one which draws random numbers is a serializer too. Of a
//! serializer that does not state it nothing is known.
use crate::packet_length_serializer;
use std::sync::Arc;
use vstd::prelude::*;

verus! {

/// Turns the packets of one connection into bytes and back.
pub trait Serializer<ReceivingPacket, SendingPacket>: Send + Sync + Sized + 'static {
    /// The serializer's error type.
    type Error;

    /// Whether a serializer in the state `before` may turn `packet` into `result`
    /// and be in the state `after` then.
    open spec fn serialized(
        before: Self,
        packet: SendingPacket,
        after: Self,
        result: Result<Seq<u8>, Self::Error>,
    ) -> bool {
        true
    }

    /// Whether a serializer in the state `before` may turn `data` into `result`
    /// and be in the state `after` then.
    open spec fn deserialized(
        before: Self,
        data: Seq<u8>,
        after: Self,
        result: Result<ReceivingPacket, Self::Error>,
    ) -> bool {
        true
    }

    /// Serializes a packet into the bytes to be sent.
    fn serialize(&mut self, packet: SendingPacket) -> (result: Result<Vec<u8>, Self::Error>)
        ensures
            Self::serialized(
                *old(self),
                packet,
                *final(self),
                packet_length_serializer::viewed(result),
            ),
    ;

    /// Deserializes the bytes that were received.
    fn deserialize(&mut self, data: &[u8]) -> (result: Result<ReceivingPacket, Self::Error>)
        ensures
            Self::deserialized(*old(self), data@, *final(self), result),
    ;
}

/// The error of a serializer that has nothing to say about what went wrong.
#[derive(Debug, PartialEq, Eq, Structural)]
pub struct DefaultSerializationError;

impl DefaultSerializationError {
    /// The error as a message for people.
    pub fn message(&self) -> (message: String)
        ensures
            message@ == "SerializationFailed"@,
    {
        let mut message: String = String::new();
        message.append("SerializationFailed");
        message
    }
}

/// Lets a configuration choose at run time between a serializer that keeps no
/// state and one that does.
pub enum SerializerAdapter<ReadOnly, Mutable> {
    /// Serializing leaves the serializer as it is.
    ReadOnly(ReadOnly),
    /// Serializing changes the serializer.
    Mutable(Mutable),
}

impl<ReceivingPacket, SendingPacket, ReadOnly, Mutable> Serializer<
    ReceivingPacket,
    SendingPacket,
> for SerializerAdapter<ReadOnly, Mutable> where
    ReadOnly: ReadOnlySerializer<ReceivingPacket, SendingPacket>,
    Mutable: MutableSerializer<ReceivingPacket, SendingPacket, Error = ReadOnly::Error>,
 {
    type Error = ReadOnly::Error;

    open spec fn serialized(
        before: Self,
        packet: SendingPacket,
        after: Self,
        result: Result<Seq<u8>, ReadOnly::Error>,
    ) -> bool {
        match (before, after) {
            (SerializerAdapter::ReadOnly(s), SerializerAdapter::ReadOnly(t)) => t == s
                && s.serialized(packet, result),
            (SerializerAdapter::Mutable(s), SerializerAdapter::Mutable(t)) => Mutable::serialized(
                s,
                packet,
                t,
                result,
            ),
            _ => false,
        }
    }

    open spec fn deserialized(
        before: Self,
        data: Seq<u8>,
        after: Self,
        result: Result<ReceivingPacket, ReadOnly::Error>,
    ) -> bool {
        match (before, after) {
            (SerializerAdapter::ReadOnly(s), SerializerAdapter::ReadOnly(t)) => t == s
                && s.deserialized(data, result),
            (SerializerAdapter::Mutable(s), SerializerAdapter::Mutable(t)) => Mutable::deserialized(
                s,
                data,
                t,
                result,
            ),
            _ => false,
        }
    }

    fn serialize(&mut self, packet: SendingPacket) -> (result: Result<Vec<u8>, ReadOnly::Error>) {
        match self {
            SerializerAdapter::ReadOnly(serializer) => serializer.serialize(packet),
            SerializerAdapter::Mutable(serializer) => serializer.serialize(packet),
        }
    }

    fn deserialize(&mut self, data: &[u8]) -> (result: Result<ReceivingPacket, ReadOnly::Error>) {
        match self {
            SerializerAdapter::ReadOnly(serializer) => serializer.deserialize(data),
            SerializerAdapter::Mutable(serializer) => serializer.deserialize(data),
        }
    }
}

impl<ReadOnly: Clone, Mutable: Clone> Clone for SerializerAdapter<ReadOnly, Mutable> {
    fn clone(&self) -> (adapter: Self)
        ensures
            match (*self, adapter) {
                (SerializerAdapter::ReadOnly(source), SerializerAdapter::ReadOnly(copy)) => cloned(
                    source,
                    copy,
                ),
                (SerializerAdapter::Mutable(source), SerializerAdapter::Mutable(copy)) => cloned(
                    source,
                    copy,
                ),
                _ => false,
            },
    {
        match self {
            SerializerAdapter::ReadOnly(serializer) => SerializerAdapter::ReadOnly(
                serializer.clone(),
            ),
            SerializerAdapter::Mutable(serializer) => SerializerAdapter::Mutable(
                serializer.clone(),
            ),
        }
    }
}

/// A serializer without state needs no lock: whatever it serializes and deserializes,
/// it stays as it is, so that every task can work with a clone of its own.
pub proof fn law_read_only_serializer_needs_no_lock<
    ReceivingPacket,
    SendingPacket,
    ReadOnly,
    Mutable,
>(
    before: SerializerAdapter<ReadOnly, Mutable>,
    packet: SendingPacket,
    sent: Result<Seq<u8>, ReadOnly::Error>,
    between: SerializerAdapter<ReadOnly, Mutable>,
    data: Seq<u8>,
    received: Result<ReceivingPacket, ReadOnly::Error>,
    after: SerializerAdapter<ReadOnly, Mutable>,
) where
    ReadOnly: ReadOnlySerializer<ReceivingPacket, SendingPacket>,
    Mutable: MutableSerializer<ReceivingPacket, SendingPacket, Error = ReadOnly::Error>,

    requires
        before is ReadOnly,
        <SerializerAdapter<ReadOnly, Mutable> as Serializer<
            ReceivingPacket,
            SendingPacket,
        >>::serialized(before, packet, between, sent),
        <SerializerAdapter<ReadOnly, Mutable> as Serializer<
            ReceivingPacket,
            SendingPacket,
        >>::deserialized(between, data, after, received),
    ensures
        between == before,
        after == before,
{
}

/// A serializer that keeps no state of its own. Several tasks can use one at the same
/// time, without a lock.
pub trait ReadOnlySerializer<ReceivingPacket, SendingPacket>: Send + Sync + Sized + 'static {
    /// The serializer's error type.
    type Error;

    /// Whether the serializer may turn `packet` into `result`.
    open spec fn serialized(
        &self,
        packet: SendingPacket,
        result: Result<Seq<u8>, Self::Error>,
    ) -> bool {
        true
    }

    /// Whether the serializer may turn `buffer` into `result`.
    open spec fn deserialized(
        &self,
        buffer: Seq<u8>,
        result: Result<ReceivingPacket, Self::Error>,
    ) -> bool {
        true
    }

    /// Serializes a packet.
    fn serialize(&self, packet: SendingPacket) -> (result: Result<Vec<u8>, Self::Error>)
        ensures
            self.serialized(packet, packet_length_serializer::viewed(result)),
    ;

    /// Deserializes a packet.
    fn deserialize(&self, buffer: &[u8]) -> (result: Result<ReceivingPacket, Self::Error>)
        ensures
            self.deserialized(buffer@, result),
    ;
}

/// Tasks that share a serializer without state share what it does.
impl<ReceivingPacket, SendingPacket, S> ReadOnlySerializer<ReceivingPacket, SendingPacket> for Arc<
    S,
> where S: ReadOnlySerializer<ReceivingPacket, SendingPacket> {
    type Error = S::Error;

    open spec fn serialized(
        &self,
        packet: SendingPacket,
        result: Result<Seq<u8>, S::Error>,
    ) -> bool {
        (**self).serialized(packet, result)
    }

    open spec fn deserialized(
        &self,
        buffer: Seq<u8>,
        result: Result<ReceivingPacket, S::Error>,
    ) -> bool {
        (**self).deserialized(buffer, result)
    }

    fn serialize(&self, packet: SendingPacket) -> (result: Result<Vec<u8>, S::Error>) {
        (**self).serialize(packet)
    }

    fn deserialize(&self, buffer: &[u8]) -> (result: Result<ReceivingPacket, S::Error>) {
        (**self).deserialize(buffer)
    }
}

/// A serializer whose state changes as it works, such as a cipher's.
pub trait MutableSerializer<ReceivingPacket, SendingPacket>: Send + Sync + Sized + 'static {
    /// The serializer's error type.
    type Error;

    /// Whether a serializer in the state `before` may turn `packet` into `result`
    /// and be in the state `after` then.
    open spec fn serialized(
        before: Self,
        packet: SendingPacket,
        after: Self,
        result: Result<Seq<u8>, Self::Error>,
    ) -> bool {
        true
    }

    /// Whether a serializer in the state `before` may turn `buffer` into `result`
    /// and be in the state `after` then.
    open spec fn deserialized(
        before: Self,
        buffer: Seq<u8>,
        after: Self,
        result: Result<ReceivingPacket, Self::Error>,
    ) -> bool {
        true
    }

    /// Serializes a packet.
    fn serialize(&mut self, packet: SendingPacket) -> (result: Result<Vec<u8>, Self::Error>)
        ensures
            Self::serialized(
                *old(self),
                packet,
                *final(self),
                packet_length_serializer::viewed(result),
            ),
    ;

    /// Deserializes a packet.
    fn deserialize(&mut self, buffer: &[u8]) -> (result: Result<ReceivingPacket, Self::Error>)
        ensures
            Self::deserialized(*old(self), buffer@, *final(self), result),
    ;
}

/// An adapter does exactly what the serializer does that it holds, and holds the same
/// kind of serializer afterwards.
pub proof fn law_adapter_does_what_it_holds<
    ReceivingPacket,
    SendingPacket,
    ReadOnly,
    Mutable,
>(
    read_only: ReadOnly,
    before: Mutable,
    after: SerializerAdapter<ReadOnly, Mutable>,
    packet: SendingPacket,
    sent: Result<Seq<u8>, ReadOnly::Error>,
    data: Seq<u8>,
    received: Result<ReceivingPacket, ReadOnly::Error>,
) where
    ReadOnly: ReadOnlySerializer<ReceivingPacket, SendingPacket>,
    Mutable: MutableSerializer<ReceivingPacket, SendingPacket, Error = ReadOnly::Error>,

    ensures
        <SerializerAdapter<ReadOnly, Mutable> as Serializer<
            ReceivingPacket,
            SendingPacket,
        >>::serialized(SerializerAdapter::ReadOnly(read_only), packet, after, sent) <==> {
            &&& after == SerializerAdapter::<ReadOnly, Mutable>::ReadOnly(read_only)
            &&& read_only.serialized(packet, sent)
        },
        <SerializerAdapter<ReadOnly, Mutable> as Serializer<
            ReceivingPacket,
            SendingPacket,
        >>::deserialized(SerializerAdapter::ReadOnly(read_only), data, after, received) <==> {
            &&& after == SerializerAdapter::<ReadOnly, Mutable>::ReadOnly(read_only)
            &&& read_only.deserialized(data, received)
        },
        <SerializerAdapter<ReadOnly, Mutable> as Serializer<
            ReceivingPacket,
            SendingPacket,
        >>::serialized(SerializerAdapter::Mutable(before), packet, after, sent) <==> {
            &&& after is Mutable
            &&& Mutable::serialized(before, packet, after->Mutable_0, sent)
        },
        <SerializerAdapter<ReadOnly, Mutable> as Serializer<
            ReceivingPacket,
            SendingPacket,
        >>::deserialized(SerializerAdapter::Mutable(before), data, after, received) <==> {
            &&& after is Mutable
            &&& Mutable::deserialized(before, data, after->Mutable_0, received)
        },
{
}

/// A shared serializer does exactly what the serializer does that is shared.
pub proof fn law_shared_serializer_is_the_same<ReceivingPacket, SendingPacket, S>(
    serializer: S,
    shared: Arc<S>,
    packet: SendingPacket,
    sent: Result<Seq<u8>, S::Error>,
    data: Seq<u8>,
    received: Result<ReceivingPacket, S::Error>,
) where S: ReadOnlySerializer<ReceivingPacket, SendingPacket>
    requires
        *shared == serializer,
    ensures
        shared.serialized(packet, sent) <==> serializer.serialized(packet, sent),
        shared.deserialized(data, received) <==> serializer.deserialized(data, received),
{
}

} // verus!
