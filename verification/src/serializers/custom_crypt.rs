//! A packet serializer that encrypts what it sends and decrypts what it receives,
//! as an example of a serializer with a state of its own.
use crate::connection::MaxPacketSize;
use crate::endian;
use crate::packet_length_serializer;
use crate::packet_length_serializer::PacketLengthSerializer;
use crate::protocol;
use crate::serializer::{
    DefaultSerializationError, MutableSerializer, ReadOnlySerializer, SerializerAdapter,
};
use std::marker::PhantomData;
use vstd::prelude::*;
use vstd::utf8;

verus! {

/// The error of the serializer in this module.
pub type CustomSerializationError = DefaultSerializationError;

/// A packet that a client sends.
#[derive(Debug, PartialEq)]
pub enum CustomCryptClientPacket {
    /// Some text.
    String(String),
}

impl Clone for CustomCryptClientPacket {
    fn clone(&self) -> (packet: Self)
        ensures
            packet@ == self@,
    {
        match self {
            CustomCryptClientPacket::String(text) => CustomCryptClientPacket::String(text.clone()),
        }
    }
}

/// A packet that a server sends.
#[derive(Debug, PartialEq)]
pub enum CustomCryptServerPacket {
    /// Some text.
    String(String),
}

impl Clone for CustomCryptServerPacket {
    fn clone(&self) -> (packet: Self)
        ensures
            packet@ == self@,
    {
        match self {
            CustomCryptServerPacket::String(text) => CustomCryptServerPacket::String(text.clone()),
        }
    }
}

impl View for CustomCryptClientPacket {
    type V = Seq<char>;

    open spec fn view(&self) -> Seq<char> {
        match self {
            CustomCryptClientPacket::String(text) => text@,
        }
    }
}

impl View for CustomCryptServerPacket {
    type V = Seq<char>;

    open spec fn view(&self) -> Seq<char> {
        match self {
            CustomCryptServerPacket::String(text) => text@,
        }
    }
}

// ---------------------------------------------------------------------------
// Packets as bytes.

#[verifier::external_type_specification]
#[verifier::external_body]
pub struct ExBincodeErrorKind(bincode::ErrorKind);

/// A 32-bit number and a text in bincode's fixed-width encoding: four
/// little-endian bytes for the number, eight for the length of the text in bytes,
/// and the text in UTF-8.
pub open spec fn tagged_text_bytes(tag: u32, text: Seq<char>) -> Seq<u8> {
    endian::le_bytes(tag as nat, 4) + endian::le_bytes(utf8::encode_utf8(text).len(), 8)
        + utf8::encode_utf8(text)
}

/// How long the text in an encoding says that it is.
pub open spec fn announced_text_length(bytes: Seq<u8>) -> nat {
    endian::le_value(bytes.subrange(4, 12))
}

/// The bytes of the text in an encoding.
pub open spec fn text_part(bytes: Seq<u8>) -> Seq<u8> {
    bytes.subrange(12, 12 + announced_text_length(bytes) as int)
}

/// Whether `bytes` starts with the encoding of a number and a text.
pub open spec fn holds_tagged_text(bytes: Seq<u8>) -> bool {
    &&& bytes.len() >= 12
    &&& announced_text_length(bytes) <= bytes.len() - 12
    &&& utf8::valid_utf8(text_part(bytes))
}

/// `bincode::serialize` on a pair of a number and a text: with the default
/// configuration of that function it writes the fields one after the other, fixed
/// width, little endian, and does not fail. The text is short enough for the
/// encoding to fit in a vector.
#[verifier::external_body]
fn bincode_serialize(tag: u32, text: &str) -> (result: Result<Vec<u8>, Box<bincode::ErrorKind>>)
    requires
        utf8::encode_utf8(text@).len() + 12 <= isize::MAX,
    ensures
        result is Ok,
        result->Ok_0@ == tagged_text_bytes(tag, text@),
{
    bincode::serialize(&(tag, text))
}

/// `bincode::deserialize` into a pair of a number and a text: with the default
/// configuration of that function it reads the two fields and ignores what comes
/// after them. It fails where the bytes end too early and where the text is not
/// UTF-8.
#[verifier::external_body]
fn bincode_deserialize(bytes: &[u8]) -> (result: Result<(u32, String), Box<bincode::ErrorKind>>)
    ensures
        result is Ok <==> holds_tagged_text(bytes@),
        result matches Ok(pair) ==> pair.0 == endian::le_value(bytes@.subrange(0, 4))
            && pair.1@ == utf8::decode_utf8(text_part(bytes@)),
{
    bincode::deserialize(bytes)
}

/// What a packet that holds `text` is on the wire, before it is encrypted: the
/// index of its variant, which is the only one, and the text. An error if that is
/// more than a vector can hold.
pub open spec fn encoded_text(text: Seq<char>) -> Result<Seq<u8>, DefaultSerializationError> {
    if utf8::encode_utf8(text).len() + 12 <= isize::MAX {
        Ok(tagged_text_bytes(0, text))
    } else {
        Err(DefaultSerializationError)
    }
}

/// The text of the packet that `bytes` is an encoding of.
pub open spec fn decoded_text(bytes: Seq<u8>) -> Result<Seq<char>, DefaultSerializationError> {
    if holds_tagged_text(bytes) && endian::le_value(bytes.subrange(0, 4)) == 0 {
        Ok(utf8::decode_utf8(text_part(bytes)))
    } else {
        Err(DefaultSerializationError)
    }
}

/// Encodes a packet that holds `text`.
pub fn encode_text(text: &str) -> (result: Result<Vec<u8>, DefaultSerializationError>)
    ensures
        packet_length_serializer::viewed(result) == encoded_text(text@),
{
    if text.as_bytes().len() > isize::MAX as usize - 12 {
        return Err(DefaultSerializationError);
    }
    match bincode_serialize(0, text) {
        Ok(bytes) => Ok(bytes),
        Err(_) => Err(DefaultSerializationError),
    }
}

/// Decodes a packet into the text that it holds.
pub fn decode_text(bytes: &[u8]) -> (result: Result<String, DefaultSerializationError>)
    ensures
        (match result {
            Ok(text) => decoded_text(bytes@) == Ok::<Seq<char>, DefaultSerializationError>(text@),
            Err(error) => decoded_text(bytes@) == Err::<Seq<char>, DefaultSerializationError>(
                error,
            ),
        }),
{
    match bincode_deserialize(bytes) {
        Ok((tag, text)) => if tag == 0 {
            Ok(text)
        } else {
            Err(DefaultSerializationError)
        },
        Err(_) => Err(DefaultSerializationError),
    }
}

/// A packet decodes to the text that it was made of, whatever follows it.
pub proof fn law_text_round_trip(text: Seq<char>, rest: Seq<u8>)
    requires
        encoded_text(text) is Ok,
    ensures
        decoded_text(encoded_text(text)->Ok_0 + rest) == Ok::<
            Seq<char>,
            DefaultSerializationError,
        >(text),
{
    let body = utf8::encode_utf8(text);
    let bytes = tagged_text_bytes(0, text) + rest;
    endian::lemma_pow256_widths();
    endian::law_le_round_trip(0, 4);
    endian::law_le_round_trip(body.len(), 8);
    assert(bytes.subrange(0, 4) =~= endian::le_bytes(0, 4));
    assert(bytes.subrange(4, 12) =~= endian::le_bytes(body.len(), 8));
    assert(text_part(bytes) =~= body);
    utf8::encode_utf8_valid_utf8(text);
    utf8::encode_utf8_decode_utf8(text);
}

// ---------------------------------------------------------------------------
// The cipher.

/// Encrypts and decrypts the packets of one side of a connection.
pub trait CryptEngine<ReceivingPacket, SendingPacket>: Default {
    /// Whether an engine in the state `before` may turn `packet` into `result` and
    /// be in the state `after` then.
    open spec fn encrypted(
        before: Self,
        packet: SendingPacket,
        after: Self,
        result: Result<Seq<u8>, DefaultSerializationError>,
    ) -> bool {
        true
    }

    /// Whether an engine in the state `before` may turn `packet` into `result` and
    /// be in the state `after` then.
    open spec fn decrypted(
        before: Self,
        packet: Seq<u8>,
        after: Self,
        result: Result<ReceivingPacket, DefaultSerializationError>,
    ) -> bool {
        true
    }

    /// Serializes and encrypts a packet.
    fn encrypt(&mut self, packet: SendingPacket) -> (result: Result<
        Vec<u8>,
        DefaultSerializationError,
    >)
        ensures
            Self::encrypted(
                *old(self),
                packet,
                *final(self),
                packet_length_serializer::viewed(result),
            ),
    ;

    /// Decrypts and deserializes a packet. Bytes that are no packet are answered with
    /// an error.
    fn decrypt(&mut self, packet: &[u8]) -> (result: Result<
        ReceivingPacket,
        DefaultSerializationError,
    >)
        ensures
            Self::decrypted(*old(self), packet@, *final(self), result),
    ;
}

/// The keys of [`CustomCryptEngine`]: the one for sending and the one for receiving.
#[derive(Debug)]
pub struct ExampleKeyPair(u64, u64);

impl ExampleKeyPair {
    /// The key for sending.
    pub closed spec fn sending(self) -> u64 {
        self.0
    }

    /// The key for receiving.
    pub closed spec fn receiving(self) -> u64 {
        self.1
    }
}

impl Default for ExampleKeyPair {
    fn default() -> (keys: Self)
        ensures
            keys.sending() == 0,
            keys.receiving() == 0,
    {
        ExampleKeyPair(0, 0)
    }
}

impl Clone for ExampleKeyPair {
    fn clone(&self) -> (keys: Self)
        ensures
            keys == *self,
    {
        ExampleKeyPair(self.0, self.1)
    }
}

/// A stream cipher that is not secure and only shows how an engine is written:
/// byte after byte is combined by exclusive or with a key that is counted up.
#[derive(Debug)]
pub struct CustomCryptEngine {
    key_pair: ExampleKeyPair,
}

impl Clone for CustomCryptEngine {
    fn clone(&self) -> (engine: Self)
        ensures
            engine == *self,
    {
        CustomCryptEngine { key_pair: self.key_pair.clone() }
    }
}

impl Default for CustomCryptEngine {
    fn default() -> (engine: Self)
        ensures
            engine.encrypt_key() == 0,
            engine.decrypt_key() == 0,
    {
        CustomCryptEngine { key_pair: ExampleKeyPair::default() }
    }
}

/// `data` combined by exclusive or with the low bytes of `key`, `key + 1`, ...
pub open spec fn xor_stream(data: Seq<u8>, key: u64) -> Seq<u8> {
    Seq::new(data.len(), |i: int| data[i] ^ (((key + i) % 256) as u8))
}

/// The key after `count` bytes; it starts again from zero after the largest `u64`.
pub open spec fn rotated(key: u64, count: nat) -> u64 {
    ((key + count) % (u64::MAX + 1)) as u64
}

impl CustomCryptEngine {
    /// The key that the next byte to be sent is encrypted with.
    pub closed spec fn encrypt_key(self) -> u64 {
        self.key_pair.sending()
    }

    /// The key that the next byte to be received is decrypted with.
    pub closed spec fn decrypt_key(self) -> u64 {
        self.key_pair.receiving()
    }

    /// Encrypts `data` and moves the sending key on by its length.
    pub fn xor_encrypt(&mut self, data: Vec<u8>) -> (encrypted: Vec<u8>)
        ensures
            encrypted@ == xor_stream(data@, old(self).encrypt_key()),
            final(self).encrypt_key() == rotated(old(self).encrypt_key(), data@.len()),
            final(self).decrypt_key() == old(self).decrypt_key(),
    {
        let (encrypted, key) = xor_with_counter(data.as_slice(), self.key_pair.0);
        self.key_pair.0 = key;
        encrypted
    }

    /// Decrypts `data` and moves the receiving key on by its length.
    pub fn xor_decrypt(&mut self, data: Vec<u8>) -> (decrypted: Vec<u8>)
        ensures
            decrypted@ == xor_stream(data@, old(self).decrypt_key()),
            final(self).decrypt_key() == rotated(old(self).decrypt_key(), data@.len()),
            final(self).encrypt_key() == old(self).encrypt_key(),
    {
        let (decrypted, key) = xor_with_counter(data.as_slice(), self.key_pair.1);
        self.key_pair.1 = key;
        decrypted
    }
}

/// Combines `data` with a key that is counted up; gives back the last key as well.
fn xor_with_counter(data: &[u8], key: u64) -> (result: (Vec<u8>, u64))
    ensures
        result.0@ == xor_stream(data@, key),
        result.1 == rotated(key, data@.len()),
{
    let mut output: Vec<u8> = Vec::new();
    let mut counter: u64 = key;
    let mut done: usize = 0;
    while done < data.len()
        invariant
            done <= data@.len(),
            output@ =~= xor_stream(data@.take(done as int), key),
            counter == rotated(key, done as nat),
        decreases data@.len() - done,
    {
        let low: u8 = #[verifier::truncate]
        (counter as u8);
        proof {
            assert((counter as u8) as u64 == counter % 256) by (bit_vector);
            assert((key + done) % (u64::MAX + 1) % 256 == (key + done) % 256);
        }
        output.push(data[done] ^ low);
        counter = counter.wrapping_add(1);
        done = done + 1;
    }
    assert(data@.take(done as int) =~= data@);
    (output, counter)
}

/// What encrypting a packet that holds `text` gives: the bytes of the packet under
/// the sending key, which moves on by as many bytes.
pub open spec fn text_encrypted(
    before: CustomCryptEngine,
    text: Seq<char>,
    after: CustomCryptEngine,
    result: Result<Seq<u8>, DefaultSerializationError>,
) -> bool {
    &&& after.decrypt_key() == before.decrypt_key()
    &&& match encoded_text(text) {
        Ok(plain) => {
            &&& result == Ok::<Seq<u8>, DefaultSerializationError>(
                xor_stream(plain, before.encrypt_key()),
            )
            &&& after.encrypt_key() == rotated(before.encrypt_key(), plain.len())
        },
        Err(error) => {
            &&& result == Err::<Seq<u8>, DefaultSerializationError>(error)
            &&& after.encrypt_key() == before.encrypt_key()
        },
    }
}

/// What decrypting `data` gives: the text of the packet that `data` is under the
/// receiving key, which moves on by as many bytes, packet or not.
pub open spec fn text_decrypted(
    before: CustomCryptEngine,
    data: Seq<u8>,
    after: CustomCryptEngine,
    result: Result<Seq<char>, DefaultSerializationError>,
) -> bool {
    &&& result == decoded_text(xor_stream(data, before.decrypt_key()))
    &&& after.decrypt_key() == rotated(before.decrypt_key(), data.len())
    &&& after.encrypt_key() == before.encrypt_key()
}

/// A result that holds a packet, with the packet taken by its view.
pub open spec fn packet_text<P: View<V = Seq<char>>>(
    result: Result<P, DefaultSerializationError>,
) -> Result<Seq<char>, DefaultSerializationError> {
    match result {
        Ok(packet) => Ok(packet@),
        Err(error) => Err(error),
    }
}

impl CustomCryptEngine {
    fn encrypt_text(&mut self, text: &str) -> (result: Result<Vec<u8>, DefaultSerializationError>)
        ensures
            text_encrypted(
                *old(self),
                text@,
                *final(self),
                packet_length_serializer::viewed(result),
            ),
    {
        match encode_text(text) {
            Ok(packet_data) => Ok(self.xor_encrypt(packet_data)),
            Err(error) => Err(error),
        }
    }

    fn decrypt_text(&mut self, packet: &[u8]) -> (result: Result<
        String,
        DefaultSerializationError,
    >)
        ensures
            text_decrypted(
                *old(self),
                packet@,
                *final(self),
                match result {
                    Ok(text) => Ok(text@),
                    Err(error) => Err(error),
                },
            ),
    {
        let decrypted_data: Vec<u8> = self.xor_decrypt(vstd::slice::slice_to_vec(packet));
        decode_text(decrypted_data.as_slice())
    }
}

/// The server's side: it receives what clients send.
impl CryptEngine<CustomCryptClientPacket, CustomCryptServerPacket> for CustomCryptEngine {
    open spec fn encrypted(
        before: Self,
        packet: CustomCryptServerPacket,
        after: Self,
        result: Result<Seq<u8>, DefaultSerializationError>,
    ) -> bool {
        text_encrypted(before, packet@, after, result)
    }

    open spec fn decrypted(
        before: Self,
        packet: Seq<u8>,
        after: Self,
        result: Result<CustomCryptClientPacket, DefaultSerializationError>,
    ) -> bool {
        text_decrypted(before, packet, after, packet_text(result))
    }

    fn encrypt(&mut self, packet: CustomCryptServerPacket) -> (result: Result<
        Vec<u8>,
        DefaultSerializationError,
    >) {
        match packet {
            CustomCryptServerPacket::String(text) => self.encrypt_text(text.as_str()),
        }
    }

    fn decrypt(&mut self, packet: &[u8]) -> (result: Result<
        CustomCryptClientPacket,
        DefaultSerializationError,
    >) {
        match self.decrypt_text(packet) {
            Ok(text) => Ok(CustomCryptClientPacket::String(text)),
            Err(error) => Err(error),
        }
    }
}

/// The client's side: it receives what the server sends.
impl CryptEngine<CustomCryptServerPacket, CustomCryptClientPacket> for CustomCryptEngine {
    open spec fn encrypted(
        before: Self,
        packet: CustomCryptClientPacket,
        after: Self,
        result: Result<Seq<u8>, DefaultSerializationError>,
    ) -> bool {
        text_encrypted(before, packet@, after, result)
    }

    open spec fn decrypted(
        before: Self,
        packet: Seq<u8>,
        after: Self,
        result: Result<CustomCryptServerPacket, DefaultSerializationError>,
    ) -> bool {
        text_decrypted(before, packet, after, packet_text(result))
    }

    fn encrypt(&mut self, packet: CustomCryptClientPacket) -> (result: Result<
        Vec<u8>,
        DefaultSerializationError,
    >) {
        match packet {
            CustomCryptClientPacket::String(text) => self.encrypt_text(text.as_str()),
        }
    }

    fn decrypt(&mut self, packet: &[u8]) -> (result: Result<
        CustomCryptServerPacket,
        DefaultSerializationError,
    >) {
        match self.decrypt_text(packet) {
            Ok(text) => Ok(CustomCryptServerPacket::String(text)),
            Err(error) => Err(error),
        }
    }
}

// ---------------------------------------------------------------------------
// The serializer.

/// A serializer that hands packets to a [`CryptEngine`].
pub struct CustomCryptSerializer<C, ReceivingPacket, SendingPacket> {
    crypt_engine: C,
    _client: PhantomData<ReceivingPacket>,
    _server: PhantomData<SendingPacket>,
}

impl<C, ReceivingPacket, SendingPacket> CustomCryptSerializer<C, ReceivingPacket, SendingPacket> {
    /// The engine that packets are handed to.
    pub closed spec fn engine(self) -> C {
        self.crypt_engine
    }
}

impl<
    C: CryptEngine<ReceivingPacket, SendingPacket>,
    ReceivingPacket,
    SendingPacket,
> CustomCryptSerializer<C, ReceivingPacket, SendingPacket> {
    /// A serializer that hands packets to `crypt_engine`.
    pub fn new(crypt_engine: C) -> (serializer: Self)
        ensures
            serializer.engine() == crypt_engine,
    {
        CustomCryptSerializer { crypt_engine, _client: PhantomData, _server: PhantomData }
    }
}

impl<
    C: CryptEngine<ReceivingPacket, SendingPacket>,
    ReceivingPacket,
    SendingPacket,
> Default for CustomCryptSerializer<C, ReceivingPacket, SendingPacket> {
    fn default() -> (serializer: Self)
        ensures
            call_ensures(C::default, (), serializer.engine()),
    {
        CustomCryptSerializer::new(C::default())
    }
}

impl<C: Clone, ReceivingPacket, SendingPacket> Clone for CustomCryptSerializer<
    C,
    ReceivingPacket,
    SendingPacket,
> {
    fn clone(&self) -> (serializer: Self)
        ensures
            cloned(self.engine(), serializer.engine()),
    {
        CustomCryptSerializer {
            crypt_engine: self.crypt_engine.clone(),
            _client: PhantomData,
            _server: PhantomData,
        }
    }
}

impl<ReceivingPacket, SendingPacket, C> MutableSerializer<
    ReceivingPacket,
    SendingPacket,
> for CustomCryptSerializer<C, ReceivingPacket, SendingPacket> where
    C: Send + Sync + 'static + CryptEngine<ReceivingPacket, SendingPacket>,
    ReceivingPacket: Send + Sync + 'static,
    SendingPacket: Send + Sync + 'static,
 {
    type Error = DefaultSerializationError;

    open spec fn serialized(
        before: Self,
        packet: SendingPacket,
        after: Self,
        result: Result<Seq<u8>, DefaultSerializationError>,
    ) -> bool {
        C::encrypted(before.engine(), packet, after.engine(), result)
    }

    open spec fn deserialized(
        before: Self,
        buffer: Seq<u8>,
        after: Self,
        result: Result<ReceivingPacket, DefaultSerializationError>,
    ) -> bool {
        C::decrypted(before.engine(), buffer, after.engine(), result)
    }

    fn serialize(&mut self, packet: SendingPacket) -> (result: Result<
        Vec<u8>,
        DefaultSerializationError,
    >) {
        self.crypt_engine.encrypt(packet)
    }

    fn deserialize(&mut self, buffer: &[u8]) -> (result: Result<
        ReceivingPacket,
        DefaultSerializationError,
    >) {
        self.crypt_engine.decrypt(buffer)
    }
}

// ---------------------------------------------------------------------------
// Laws.

/// Decrypting under the key that was encrypted with gives the data back.
pub proof fn law_xor_round_trip(data: Seq<u8>, key: u64)
    ensures
        xor_stream(data, key).len() == data.len(),
        xor_stream(xor_stream(data, key), key) == data,
{
    assert forall|i: int| 0 <= i < data.len() implies xor_stream(xor_stream(data, key), key)[i]
        == data[i] by {
        let byte = data[i];
        let low = ((key + i) % 256) as u8;
        assert((byte ^ low) ^ low == byte) by (bit_vector);
    }
    assert(xor_stream(xor_stream(data, key), key) =~= data);
}

/// The cipher is a stream cipher: two pieces encrypted one after the other are the
/// whole encrypted at once, and leave the same key.
pub proof fn law_xor_of_pieces(first: Seq<u8>, second: Seq<u8>, key: u64)
    ensures
        xor_stream(first + second, key) == xor_stream(first, key) + xor_stream(
            second,
            rotated(key, first.len()),
        ),
        rotated(key, (first + second).len()) == rotated(
            rotated(key, first.len()),
            second.len(),
        ),
{
    let middle = rotated(key, first.len());
    assert forall|i: int| 0 <= i < second.len() implies #[trigger] ((middle + i) % 256) == (key
        + first.len() + i) % 256 by {
        assert((key + first.len()) % (u64::MAX + 1) % 256 == (key + first.len()) % 256);
    }
    assert(xor_stream(first + second, key) =~= xor_stream(first, key) + xor_stream(second, middle));
}

/// Where the sending key of one engine is the receiving key of another, a packet
/// that the first encrypts is a packet that the second decrypts to the same text,
/// and the two keys stay the same.
pub proof fn law_engines_stay_in_step(
    sender: CustomCryptEngine,
    receiver: CustomCryptEngine,
    text: Seq<char>,
    sender_after: CustomCryptEngine,
    receiver_after: CustomCryptEngine,
    sent: Seq<u8>,
    received: Result<Seq<char>, DefaultSerializationError>,
)
    requires
        sender.encrypt_key() == receiver.decrypt_key(),
        text_encrypted(
            sender,
            text,
            sender_after,
            Ok::<Seq<u8>, DefaultSerializationError>(sent),
        ),
        text_decrypted(receiver, sent, receiver_after, received),
    ensures
        received == Ok::<Seq<char>, DefaultSerializationError>(text),
        sender_after.encrypt_key() == receiver_after.decrypt_key(),
{
    let plain = encoded_text(text)->Ok_0;
    law_xor_round_trip(plain, sender.encrypt_key());
    law_text_round_trip(text, Seq::empty());
    assert(plain + Seq::<u8>::empty() =~= plain);
}

/// A whole conversation in one direction: where the keys are the same at the start,
/// every packet that one engine sent comes out of the other engine as it was sent.
pub proof fn law_conversation(
    senders: Seq<CustomCryptEngine>,
    receivers: Seq<CustomCryptEngine>,
    texts: Seq<Seq<char>>,
    sent: Seq<Seq<u8>>,
    received: Seq<Result<Seq<char>, DefaultSerializationError>>,
)
    requires
        senders.len() == texts.len() + 1,
        receivers.len() == texts.len() + 1,
        sent.len() == texts.len(),
        received.len() == texts.len(),
        senders[0].encrypt_key() == receivers[0].decrypt_key(),
        forall|i: int| #![trigger texts[i]]
            0 <= i < texts.len() ==> text_encrypted(
                senders[i],
                texts[i],
                senders[i + 1],
                Ok::<Seq<u8>, DefaultSerializationError>(sent[i]),
            ) && text_decrypted(receivers[i], sent[i], receivers[i + 1], received[i]),
    ensures
        forall|i: int|
            0 <= i < texts.len() ==> #[trigger] received[i] == Ok::<
                Seq<char>,
                DefaultSerializationError,
            >(texts[i]),
        senders.last().encrypt_key() == receivers.last().decrypt_key(),
    decreases texts.len(),
{
    if texts.len() > 0 {
        let last = texts.len() - 1;
        assert forall|i: int| #![trigger texts.take(last)[i]] 0 <= i < last implies text_encrypted(
            senders.take(last + 1)[i],
            texts.take(last)[i],
            senders.take(last + 1)[i + 1],
            Ok::<Seq<u8>, DefaultSerializationError>(sent.take(last)[i]),
        ) && text_decrypted(
            receivers.take(last + 1)[i],
            sent.take(last)[i],
            receivers.take(last + 1)[i + 1],
            received.take(last)[i],
        ) by {
            assert(texts.take(last)[i] == texts[i]);
        }
        law_conversation(
            senders.take(last + 1),
            receivers.take(last + 1),
            texts.take(last),
            sent.take(last),
            received.take(last),
        );
        assert(texts[last] == texts[last]);
        law_engines_stay_in_step(
            senders[last],
            receivers[last],
            texts[last],
            senders[last + 1],
            receivers[last + 1],
            sent[last],
            received[last],
        );
        assert forall|i: int| 0 <= i < texts.len() implies #[trigger] received[i] == Ok::<
            Seq<char>,
            DefaultSerializationError,
        >(texts[i]) by {
            if i < last {
                assert(received.take(last)[i] == received[i]);
            }
        }
    }
}

/// Encrypted packets arrive: what one engine encrypts, framed and sent over a stream,
/// comes out of the stream, and out of an engine that is in step, as the text that
/// was sent. What follows it in the stream is untouched and the engines stay in step.
pub proof fn law_encrypted_packet_arrives<LS: PacketLengthSerializer>(
    length_serializer: LS,
    max: usize,
    limit: MaxPacketSize,
    sender: CustomCryptEngine,
    receiver: CustomCryptEngine,
    text: Seq<char>,
    sender_after: CustomCryptEngine,
    payload: Seq<u8>,
    rest: Seq<u8>,
    arrived: Seq<u8>,
    remaining: Seq<u8>,
    receiver_after: CustomCryptEngine,
    received: Result<Seq<char>, DefaultSerializationError>,
)
    requires
        protocol::reads_back_up_to(length_serializer, max),
        payload.len() <= max,
        payload.len() <= limit.0,
        sender.encrypt_key() == receiver.decrypt_key(),
        text_encrypted(
            sender,
            text,
            sender_after,
            Ok::<Seq<u8>, DefaultSerializationError>(payload),
        ),
        protocol::received(
            protocol::ReadState::start::<LS>(),
            length_serializer,
            limit,
            protocol::framed(length_serializer, payload)->Ok_0 + rest,
        ) == (protocol::StreamOutcome::<LS::Error>::Packet { payload: arrived, rest: remaining }),
        text_decrypted(receiver, arrived, receiver_after, received),
    ensures
        received == Ok::<Seq<char>, DefaultSerializationError>(text),
        remaining == rest,
        sender_after.encrypt_key() == receiver_after.decrypt_key(),
{
    protocol::law_sent_packet_is_received(length_serializer, max, limit, payload, rest);
    law_engines_stay_in_step(
        sender,
        receiver,
        text,
        sender_after,
        receiver_after,
        payload,
        received,
    );
}

/// The serializer of a client that uses the cipher.
pub type ClientCipher = CustomCryptSerializer<
    CustomCryptEngine,
    CustomCryptServerPacket,
    CustomCryptClientPacket,
>;

/// The serializer of a server that uses the cipher.
pub type ServerCipher = CustomCryptSerializer<
    CustomCryptEngine,
    CustomCryptClientPacket,
    CustomCryptServerPacket,
>;

/// The serializers of a client and of a server undo each other's work, in both
/// directions, as long as the sending key of the one is the receiving key of the other:
/// a packet comes back with the text that it had.
pub proof fn law_ciphers_undo_each_other<ClientOther, ServerOther>()
    where
        ClientOther: ReadOnlySerializer<
            CustomCryptServerPacket,
            CustomCryptClientPacket,
            Error = DefaultSerializationError,
        >,
        ServerOther: ReadOnlySerializer<
            CustomCryptClientPacket,
            CustomCryptServerPacket,
            Error = DefaultSerializationError,
        >,

    ensures
        protocol::undoes::<
            CustomCryptClientPacket,
            CustomCryptServerPacket,
            SerializerAdapter<ClientOther, ClientCipher>,
            SerializerAdapter<ServerOther, ServerCipher>,
        >(
            |
                client: SerializerAdapter<ClientOther, ClientCipher>,
                server: SerializerAdapter<ServerOther, ServerCipher>,
            |
                {
                    &&& client is Mutable
                    &&& server is Mutable
                    &&& client->Mutable_0.engine().encrypt_key()
                        == server->Mutable_0.engine().decrypt_key()
                },
            |one: CustomCryptClientPacket, other: CustomCryptClientPacket| one@ == other@,
        ),
        protocol::undoes::<
            CustomCryptServerPacket,
            CustomCryptClientPacket,
            SerializerAdapter<ServerOther, ServerCipher>,
            SerializerAdapter<ClientOther, ClientCipher>,
        >(
            |
                server: SerializerAdapter<ServerOther, ServerCipher>,
                client: SerializerAdapter<ClientOther, ClientCipher>,
            |
                {
                    &&& server is Mutable
                    &&& client is Mutable
                    &&& server->Mutable_0.engine().encrypt_key()
                        == client->Mutable_0.engine().decrypt_key()
                },
            |one: CustomCryptServerPacket, other: CustomCryptServerPacket| one@ == other@,
        ),
{
    assert forall|
        sender: CustomCryptEngine,
        text: Seq<char>,
        payload: Seq<u8>,
        sent: CustomCryptEngine,
        receiver: CustomCryptEngine,
        received: CustomCryptEngine,
        result: Result<Seq<char>, DefaultSerializationError>,
    |
        sender.encrypt_key() == receiver.decrypt_key() && #[trigger] text_encrypted(
            sender,
            text,
            sent,
            Ok(payload),
        ) && #[trigger] text_decrypted(receiver, payload, received, result) implies result == Ok::<
        Seq<char>,
        DefaultSerializationError,
    >(text) && sent.encrypt_key() == received.decrypt_key() by {
        law_engines_stay_in_step(sender, receiver, text, sent, received, payload, result);
    }
}

/// Every text can be encoded whose UTF-8 form and the twelve bytes in front of it fit in
/// a vector, and no other. The bytes are four zeros, eight digits to the base `256` for
/// the length of the UTF-8 form, the lowest one first, and the UTF-8 form.
pub proof fn law_every_text_that_fits_is_encoded(text: Seq<char>)
    ensures
        encoded_text(text) is Ok <==> utf8::encode_utf8(text).len() + 12 <= isize::MAX,
        encoded_text(text) matches Ok(bytes) ==> {
            let form = utf8::encode_utf8(text);
            &&& bytes.len() == 12 + form.len()
            &&& forall|i: int| 0 <= i < 4 ==> #[trigger] bytes[i] == 0
            &&& forall|i: int|
                4 <= i < 12 ==> #[trigger] bytes[i] == (form.len() as int
                    / vstd::arithmetic::power::pow(256, (i - 4) as nat)) % 256
            &&& bytes.skip(12) == form
        },
{
    let form = utf8::encode_utf8(text);
    let tag = endian::le_bytes(0, 4);
    let length = endian::le_bytes(form.len(), 8);
    endian::law_le_bytes_are_digits(0, 4);
    endian::law_le_bytes_are_digits(form.len(), 8);
    let bytes = tagged_text_bytes(0, text);
    assert forall|i: int| 0 <= i < 4 implies #[trigger] bytes[i] == 0 by {
        vstd::arithmetic::power::lemma_pow_positive(256, i as nat);
        vstd::arithmetic::div_mod::lemma_div_basics(vstd::arithmetic::power::pow(256, i as nat));
        assert(bytes[i] == tag[i]);
    }
    assert forall|i: int| 4 <= i < 12 implies #[trigger] bytes[i] == (form.len() as int
        / vstd::arithmetic::power::pow(256, (i - 4) as nat)) % 256 by {
        assert(bytes[i] == length[i - 4]);
    }
    assert(bytes.skip(12) =~= form);
}

/// Bytes are decoded if and only if they are a packet: they start with four zeros,
/// eight bytes that say how many bytes of UTF-8 come next, the lowest one first, and
/// these bytes. The text is what those say; whatever comes after them does not matter.
pub proof fn law_exactly_packets_are_decoded(bytes: Seq<u8>)
    ensures
        ({
            let length = bytes.subrange(4, 12).map(
                |i: int, byte: u8| byte * vstd::arithmetic::power::pow(256, i as nat),
            ).fold_left(0int, |sum: int, term: int| sum + term);
            let form = bytes.subrange(12, 12 + length);
            &&& decoded_text(bytes) is Ok <==> {
                &&& bytes.len() >= 12
                &&& forall|i: int| 0 <= i < 4 ==> #[trigger] bytes[i] == 0
                &&& length <= bytes.len() - 12
                &&& utf8::valid_utf8(form)
            }
            &&& decoded_text(bytes) matches Ok(text) ==> text == utf8::decode_utf8(form)
        }),
{
    endian::law_le_value_is_the_sum_of_its_bytes(bytes.subrange(4, 12));
    if bytes.len() >= 12 {
        let tag = bytes.subrange(0, 4);
        let zeros = endian::le_bytes(0, 4);
        endian::law_le_bytes_are_digits(0, 4);
        assert forall|i: int| 0 <= i < 4 implies #[trigger] zeros[i] == 0 by {
            vstd::arithmetic::power::lemma_pow_positive(256, i as nat);
            vstd::arithmetic::div_mod::lemma_div_basics(
                vstd::arithmetic::power::pow(256, i as nat),
            );
        }
        if endian::le_value(tag) == 0 {
            endian::law_le_bytes_of_value(tag);
            assert forall|i: int| 0 <= i < 4 implies #[trigger] bytes[i] == 0 by {
                assert(tag[i] == zeros[i]);
            }
        }
        if forall|i: int| 0 <= i < 4 ==> #[trigger] bytes[i] == 0 {
            assert(tag =~= zeros);
            endian::lemma_pow256_increases(0, 4);
            endian::law_le_round_trip(0, 4);
        }
    }
}

/// Every byte is combined by exclusive or with the low byte of a key of its own, which
/// goes up by one from byte to byte, and the key is moved on by one for each byte.
pub proof fn law_every_byte_has_its_key(data: Seq<u8>, key: u64)
    ensures
        xor_stream(data, key).len() == data.len(),
        forall|i: int|
            0 <= i < data.len() ==> #[trigger] xor_stream(data, key)[i] == data[i] ^ (((key + i)
                % 256) as u8),
        rotated(key, data.len()) == (key + data.len()) % (u64::MAX + 1),
{
}

/// Encrypting succeeds for every text that fits, and for no other. What is sent is the
/// packet, byte for byte under the sending key, which moves on by as many bytes; the
/// receiving key stays. Where the text does not fit, both keys stay.
pub proof fn law_every_text_that_fits_is_encrypted(
    before: CustomCryptEngine,
    text: Seq<char>,
    after: CustomCryptEngine,
    result: Result<Seq<u8>, DefaultSerializationError>,
)
    requires
        text_encrypted(before, text, after, result),
    ensures
        result is Ok <==> utf8::encode_utf8(text).len() + 12 <= isize::MAX,
        result matches Ok(sent) ==> {
            &&& encoded_text(text) is Ok
            &&& sent.len() == 12 + utf8::encode_utf8(text).len()
            &&& forall|i: int|
                0 <= i < sent.len() ==> #[trigger] sent[i] == encoded_text(text)->Ok_0[i] ^ (((
                before.encrypt_key() + i) % 256) as u8)
            &&& after.encrypt_key() == (before.encrypt_key() + sent.len()) % (u64::MAX + 1)
        },
        result is Err ==> after.encrypt_key() == before.encrypt_key(),
        after.decrypt_key() == before.decrypt_key(),
{
    law_every_text_that_fits_is_encoded(text);
}

/// Decrypting gives what the data says byte for byte under the receiving key, which
/// moves on by as many bytes, whether that is a packet or not; the sending key stays.
pub proof fn law_data_is_decrypted_byte_for_byte(
    before: CustomCryptEngine,
    data: Seq<u8>,
    plain: Seq<u8>,
    after: CustomCryptEngine,
    result: Result<Seq<char>, DefaultSerializationError>,
)
    requires
        text_decrypted(before, data, after, result),
        plain.len() == data.len(),
        forall|i: int|
            0 <= i < data.len() ==> #[trigger] plain[i] == data[i] ^ (((before.decrypt_key() + i)
                % 256) as u8),
    ensures
        result == decoded_text(plain),
        after.decrypt_key() == (before.decrypt_key() + data.len()) % (u64::MAX + 1),
        after.encrypt_key() == before.encrypt_key(),
{
    assert(xor_stream(data, before.decrypt_key()) =~= plain);
}

/// The engine encrypts the text that a packet holds and decrypts to a packet that holds
/// the text, on the client's side as well as on the server's.
pub proof fn law_packets_are_their_texts(
    before: CustomCryptEngine,
    text: String,
    after: CustomCryptEngine,
    sent: Result<Seq<u8>, DefaultSerializationError>,
    data: Seq<u8>,
)
    ensures
        <CustomCryptEngine as CryptEngine<
            CustomCryptServerPacket,
            CustomCryptClientPacket,
        >>::encrypted(before, CustomCryptClientPacket::String(text), after, sent)
            <==> text_encrypted(before, text@, after, sent),
        <CustomCryptEngine as CryptEngine<
            CustomCryptClientPacket,
            CustomCryptServerPacket,
        >>::encrypted(before, CustomCryptServerPacket::String(text), after, sent)
            <==> text_encrypted(before, text@, after, sent),
        <CustomCryptEngine as CryptEngine<
            CustomCryptClientPacket,
            CustomCryptServerPacket,
        >>::decrypted(before, data, after, Ok(CustomCryptClientPacket::String(text)))
            <==> text_decrypted(before, data, after, Ok(text@)),
        <CustomCryptEngine as CryptEngine<
            CustomCryptServerPacket,
            CustomCryptClientPacket,
        >>::decrypted(before, data, after, Ok(CustomCryptServerPacket::String(text)))
            <==> text_decrypted(before, data, after, Ok(text@)),
        <CustomCryptEngine as CryptEngine<
            CustomCryptClientPacket,
            CustomCryptServerPacket,
        >>::decrypted(before, data, after, Err(DefaultSerializationError))
            <==> text_decrypted(before, data, after, Err(DefaultSerializationError)),
        <CustomCryptEngine as CryptEngine<
            CustomCryptServerPacket,
            CustomCryptClientPacket,
        >>::decrypted(before, data, after, Err(DefaultSerializationError))
            <==> text_decrypted(before, data, after, Err(DefaultSerializationError)),
{
}

/// The serializer does exactly what its engine does.
pub proof fn law_serializer_does_what_its_engine_does<ReceivingPacket, SendingPacket, C>(
    before: CustomCryptSerializer<C, ReceivingPacket, SendingPacket>,
    after: CustomCryptSerializer<C, ReceivingPacket, SendingPacket>,
    packet: SendingPacket,
    sent: Result<Seq<u8>, DefaultSerializationError>,
    buffer: Seq<u8>,
    received: Result<ReceivingPacket, DefaultSerializationError>,
) where
    C: Send + Sync + 'static + CryptEngine<ReceivingPacket, SendingPacket>,
    ReceivingPacket: Send + Sync + 'static,
    SendingPacket: Send + Sync + 'static,

    ensures
        CustomCryptSerializer::serialized(before, packet, after, sent) <==> C::encrypted(
            before.engine(),
            packet,
            after.engine(),
            sent,
        ),
        CustomCryptSerializer::deserialized(before, buffer, after, received) <==> C::decrypted(
            before.engine(),
            buffer,
            after.engine(),
            received,
        ),
{
}

} // verus!
