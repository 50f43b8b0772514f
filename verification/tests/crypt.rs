use bevy_slinet::connection::MaxPacketSize;
use bevy_slinet::packet_length_serializer::{LittleEndian, PacketTooLargeError};
use bevy_slinet::protocol::{encode_packet, PacketReader, ReceiveError, ReceiveProgress};
use bevy_slinet::serializer::{
    DefaultSerializationError, MutableSerializer, ReadOnlySerializer, Serializer,
    SerializerAdapter,
};
use bevy_slinet::serializers::custom_crypt::{
    decode_text, encode_text, CryptEngine, CustomCryptClientPacket, CustomCryptEngine,
    CustomCryptSerializer, CustomCryptServerPacket, CustomSerializationError,
};
use std::sync::Arc;

#[test]
fn test_xor_encrypt_decrypt() {
    let mut engine = CustomCryptEngine::default();
    let data = vec![1, 2, 3, 4, 5];

    let encrypted = engine.xor_encrypt(data.clone());
    assert_ne!(
        encrypted, data,
        "Encrypted data should not be equal to original data"
    );

    let decrypted = engine.xor_decrypt(encrypted);
    assert_eq!(
        decrypted, data,
        "Decrypted data should be equal to original data"
    );
}

#[test]
fn test_crypt_engine_encrypt_decrypt() {
    let mut engine = CustomCryptEngine::default();
    let client_packet = CustomCryptClientPacket::String("Hello, Server!".to_string());
    let server_packet = CustomCryptServerPacket::String("Hello, Client!".to_string());

    // Client packet encryption and decryption
    let encrypted = engine.encrypt(client_packet.clone()).unwrap();
    let decrypted: CustomCryptClientPacket = engine.decrypt(&encrypted).unwrap();
    assert_eq!(
        decrypted, client_packet,
        "Decrypted client packet should be equal to original packet"
    );

    // Server packet encryption and decryption
    let encrypted = engine.encrypt(server_packet.clone()).unwrap();
    let decrypted: CustomCryptServerPacket = engine.decrypt(&encrypted).unwrap();
    assert_eq!(
        decrypted, server_packet,
        "Decrypted server packet should be equal to original packet"
    );
}

#[test]
fn xor_uses_the_low_byte_of_a_growing_key() {
    let mut engine = CustomCryptEngine::default();
    assert_eq!(
        engine.xor_encrypt(vec![1, 2, 3, 4, 5]),
        vec![1, 3, 1, 7, 1]
    );
    // The key goes on where it stopped.
    assert_eq!(engine.xor_encrypt(vec![0, 0, 0]), vec![5, 6, 7]);
    // The key for the other direction is still at its start.
    assert_eq!(engine.xor_decrypt(vec![0, 0, 0]), vec![0, 1, 2]);
}

#[test]
fn xor_key_wraps_after_a_byte() {
    let mut engine = CustomCryptEngine::default();
    let encrypted = engine.xor_encrypt(vec![0; 258]);
    assert_eq!(encrypted[255], 255);
    assert_eq!(encrypted[256], 0);
    assert_eq!(encrypted[257], 1);
}

#[test]
fn xor_of_nothing_is_nothing() {
    let mut engine = CustomCryptEngine::default();
    assert_eq!(engine.xor_encrypt(vec![]), Vec::<u8>::new());
    assert_eq!(engine.xor_encrypt(vec![9]), vec![9]);
}

#[test]
fn pieces_encrypt_like_the_whole() {
    let mut whole = CustomCryptEngine::default();
    let mut pieces = CustomCryptEngine::default();
    let mut joined = pieces.xor_encrypt(vec![10, 20, 30]);
    joined.extend(pieces.xor_encrypt(vec![40, 50]));
    assert_eq!(whole.xor_encrypt(vec![10, 20, 30, 40, 50]), joined);
}

/// The packet as serde describes an enum with one variant that holds a text.
struct TextPacket(String);

impl serde::Serialize for TextPacket {
    fn serialize<S: serde::Serializer>(&self, serializer: S) -> Result<S::Ok, S::Error> {
        serializer.serialize_newtype_variant("TextPacket", 0, "String", &self.0)
    }
}

#[test]
fn packets_are_encoded_as_bincode_encodes_the_enum() {
    for text in ["", "a", "Hello, Server!", "\u{e4}\u{20ac}\u{1f600}"] {
        let expected = bincode::serialize(&TextPacket(text.to_string())).unwrap();
        assert_eq!(encode_text(text).unwrap(), expected);
    }
}

#[test]
fn text_encoding_has_exact_bytes() {
    assert_eq!(
        encode_text("Hi").unwrap(),
        vec![0, 0, 0, 0, 2, 0, 0, 0, 0, 0, 0, 0, b'H', b'i']
    );
}

#[test]
fn text_decoding_ignores_what_follows() {
    let mut bytes = encode_text("\u{e4}bc").unwrap();
    bytes.extend([1, 2, 3]);
    assert_eq!(decode_text(&bytes).unwrap(), "\u{e4}bc");
}

#[test]
fn text_decoding_refuses_broken_packets() {
    let good = encode_text("Hi").unwrap();
    // Too short.
    assert_eq!(decode_text(&good[..13]), Err(DefaultSerializationError));
    assert_eq!(decode_text(&[]), Err(DefaultSerializationError));
    // Another variant.
    let mut variant = good.clone();
    variant[0] = 1;
    assert_eq!(decode_text(&variant), Err(DefaultSerializationError));
    // A text that is not UTF-8.
    let mut text = good.clone();
    text[12] = 0xff;
    assert_eq!(decode_text(&text), Err(DefaultSerializationError));
    // A length that is far too large.
    let mut length = good;
    length[11] = 0x7f;
    assert_eq!(decode_text(&length), Err(DefaultSerializationError));
}

#[test]
fn encrypted_packet_has_exact_bytes() {
    let mut engine = CustomCryptEngine::default();
    let encrypted = engine
        .encrypt(CustomCryptClientPacket::String("Hi".to_string()))
        .unwrap();
    assert_eq!(
        encrypted,
        vec![0, 1, 2, 3, 6, 5, 6, 7, 8, 9, 10, 11, b'H' ^ 12, b'i' ^ 13]
    );
}

#[test]
fn broken_packet_moves_the_key() {
    let mut engine = CustomCryptEngine::default();
    let result: Result<CustomCryptClientPacket, CustomSerializationError> =
        engine.decrypt(&[9, 9, 9]);
    assert_eq!(result, Err(DefaultSerializationError));
    assert_eq!(engine.xor_decrypt(vec![0]), vec![3]);
}

type ClientSerializer =
    CustomCryptSerializer<CustomCryptEngine, CustomCryptServerPacket, CustomCryptClientPacket>;
type ServerSerializer =
    CustomCryptSerializer<CustomCryptEngine, CustomCryptClientPacket, CustomCryptServerPacket>;

#[test]
fn engines_of_two_ends_stay_in_step() {
    let mut client = ClientSerializer::new(CustomCryptEngine::default());
    let mut server = ServerSerializer::new(CustomCryptEngine::default());
    for text in ["one", "", "three", "a much longer text than before"] {
        let packet = CustomCryptClientPacket::String(text.to_string());
        let bytes = client.serialize(packet.clone()).unwrap();
        assert_eq!(server.deserialize(&bytes).unwrap(), packet);
        let answer = CustomCryptServerPacket::String(text.to_uppercase());
        let bytes = server.serialize(answer.clone()).unwrap();
        assert_eq!(client.deserialize(&bytes).unwrap(), answer);
    }
}

#[test]
fn serializer_starts_like_a_new_engine() {
    let mut by_default = ClientSerializer::default();
    let mut by_new = ClientSerializer::new(CustomCryptEngine::default());
    let mut by_clone = by_new.clone();
    let packet = CustomCryptClientPacket::String("x".to_string());
    let bytes = by_new.serialize(packet.clone()).unwrap();
    assert_eq!(by_default.serialize(packet.clone()).unwrap(), bytes);
    assert_eq!(by_clone.serialize(packet.clone()).unwrap(), bytes);
    // A clone that is made later has the key of that time.
    let mut later = by_new.clone();
    assert_ne!(later.serialize(packet).unwrap(), bytes);
}

#[test]
fn serialization_error_has_a_message() {
    assert_eq!(DefaultSerializationError.message(), "SerializationFailed");
}

/// Adds one to every byte, and refuses empty packets.
struct PlusOne;

impl ReadOnlySerializer<Vec<u8>, Vec<u8>> for PlusOne {
    type Error = u8;

    fn serialize(&self, packet: Vec<u8>) -> Result<Vec<u8>, u8> {
        if packet.is_empty() {
            Err(7)
        } else {
            Ok(packet.iter().map(|byte| byte.wrapping_add(1)).collect())
        }
    }

    fn deserialize(&self, buffer: &[u8]) -> Result<Vec<u8>, u8> {
        if buffer.is_empty() {
            Err(8)
        } else {
            Ok(buffer.iter().map(|byte| byte.wrapping_sub(1)).collect())
        }
    }
}

/// Numbers the packets.
#[derive(Clone)]
struct Numbering(u8, u8);

impl MutableSerializer<Vec<u8>, Vec<u8>> for Numbering {
    type Error = u8;

    fn serialize(&mut self, packet: Vec<u8>) -> Result<Vec<u8>, u8> {
        let mut bytes = vec![self.0];
        bytes.extend(packet);
        self.0 += 1;
        Ok(bytes)
    }

    fn deserialize(&mut self, buffer: &[u8]) -> Result<Vec<u8>, u8> {
        if buffer.first() == Some(&self.1) {
            self.1 += 1;
            Ok(buffer[1..].to_vec())
        } else {
            Err(self.1)
        }
    }
}

#[test]
fn adapter_uses_the_serializer_it_holds() {
    let mut read_only: SerializerAdapter<PlusOne, Numbering> = SerializerAdapter::ReadOnly(PlusOne);
    assert_eq!(read_only.serialize(vec![1, 255]), Ok(vec![2, 0]));
    assert_eq!(read_only.serialize(vec![]), Err(7));
    assert_eq!(read_only.deserialize(&[2, 0]), Ok(vec![1, 255]));
    assert_eq!(read_only.deserialize(&[]), Err(8));

    let mut mutable: SerializerAdapter<PlusOne, Numbering> =
        SerializerAdapter::Mutable(Numbering(0, 0));
    assert_eq!(mutable.serialize(vec![5]), Ok(vec![0, 5]));
    assert_eq!(mutable.serialize(vec![5]), Ok(vec![1, 5]));
    assert_eq!(mutable.deserialize(&[0, 9]), Ok(vec![9]));
    assert_eq!(mutable.deserialize(&[0, 9]), Err(1));
}

type Received =
    Result<CustomCryptClientPacket, ReceiveError<(), DefaultSerializationError, PacketTooLargeError>>;

#[test]
fn tasks_share_a_serializer_without_state() {
    let shared: SerializerAdapter<Arc<PlusOne>, Numbering> =
        SerializerAdapter::ReadOnly(Arc::new(PlusOne));
    let mut one = shared.clone();
    let mut other = shared;
    let sent: Result<Vec<u8>, u8> = one.serialize(vec![1]);
    assert_eq!(sent, Ok(vec![2]));
    let received: Result<Vec<u8>, u8> = other.deserialize(&[2]);
    assert_eq!(received, Ok(vec![1]));
}

/// Reads one packet out of `stream` and takes its bytes off it.
fn receive_from(
    stream: &mut Vec<u8>,
    serializer: &mut SerializerAdapter<PlusOne, ServerSerializer>,
) -> Received {
    let lengths: LittleEndian<u32> = LittleEndian::default();
    let mut reader = PacketReader::new(&lengths);
    loop {
        let wanted = reader.wanted();
        let read = if stream.len() < wanted {
            Err(())
        } else {
            Ok(stream.drain(..wanted).collect())
        };
        match reader.advance(read, serializer, &lengths, MaxPacketSize::unlimited()) {
            ReceiveProgress::Read(next) => reader = next,
            ReceiveProgress::Done(result) => return result,
        }
    }
}

impl ReadOnlySerializer<CustomCryptClientPacket, CustomCryptServerPacket> for PlusOne {
    type Error = DefaultSerializationError;

    fn serialize(&self, _: CustomCryptServerPacket) -> Result<Vec<u8>, DefaultSerializationError> {
        Err(DefaultSerializationError)
    }

    fn deserialize(&self, _: &[u8]) -> Result<CustomCryptClientPacket, DefaultSerializationError> {
        Err(DefaultSerializationError)
    }
}

impl ReadOnlySerializer<CustomCryptServerPacket, CustomCryptClientPacket> for PlusOne {
    type Error = DefaultSerializationError;

    fn serialize(&self, _: CustomCryptClientPacket) -> Result<Vec<u8>, DefaultSerializationError> {
        Err(DefaultSerializationError)
    }

    fn deserialize(&self, _: &[u8]) -> Result<CustomCryptServerPacket, DefaultSerializationError> {
        Err(DefaultSerializationError)
    }
}

#[test]
fn encrypted_packets_arrive_over_a_stream() {
    let lengths: LittleEndian<u32> = LittleEndian::default();
    let mut client: SerializerAdapter<PlusOne, ClientSerializer> =
        SerializerAdapter::Mutable(ClientSerializer::default());
    let mut server: SerializerAdapter<PlusOne, ServerSerializer> =
        SerializerAdapter::Mutable(ServerSerializer::default());
    let texts = ["Hello, Server!", "", "and again"];
    let mut stream = Vec::new();
    for text in texts {
        let packet = CustomCryptClientPacket::String(text.to_string());
        let bytes =
            encode_packet::<CustomCryptServerPacket, _, _, _>(packet, &mut client, &lengths);
        stream.extend(bytes.unwrap());
    }
    for text in texts {
        let packet = receive_from(&mut stream, &mut server).ok().unwrap();
        assert_eq!(packet, CustomCryptClientPacket::String(text.to_string()));
    }
    assert!(stream.is_empty());
}
