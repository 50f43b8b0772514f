use bevy_slinet::connection::MaxPacketSize;
use bevy_slinet::packet_length_serializer::{BigEndian, LittleEndian, PacketTooLargeError};
use bevy_slinet::protocol::{
    encode_packet, frame, EncodeError, PacketReader, ReceiveError, ReceiveProgress,
    StreamErrorKind,
};
use bevy_slinet::protocols::tcp::{try_peek_exact, CONNECT_TIMEOUT_SECS};
use bevy_slinet::serializer::{
    MutableSerializer, ReadOnlySerializer, SerializerAdapter,
};

/// Packets are texts; a packet that starts with `!` cannot be serialized, and bytes
/// that are not UTF-8 cannot be deserialized.
struct Texts;

impl ReadOnlySerializer<String, String> for Texts {
    type Error = &'static str;

    fn serialize(&self, packet: String) -> Result<Vec<u8>, &'static str> {
        if packet.starts_with('!') {
            Err("bad packet")
        } else {
            Ok(packet.into_bytes())
        }
    }

    fn deserialize(&self, buffer: &[u8]) -> Result<String, &'static str> {
        String::from_utf8(buffer.to_vec()).map_err(|_| "bad bytes")
    }
}

struct Counting(usize);

impl MutableSerializer<String, String> for Counting {
    type Error = &'static str;

    fn serialize(&mut self, packet: String) -> Result<Vec<u8>, &'static str> {
        self.0 += 1;
        Ok(packet.into_bytes())
    }

    fn deserialize(&mut self, buffer: &[u8]) -> Result<String, &'static str> {
        self.0 += 1;
        Ok(format!("{}:{}", self.0, buffer.len()))
    }
}

type Adapter = SerializerAdapter<Texts, Counting>;
type Received = Result<String, ReceiveError<&'static str, &'static str, PacketTooLargeError>>;

/// Reads one packet out of `stream` and takes its bytes off it.
fn receive_from(stream: &mut Vec<u8>, serializer: &mut Adapter, limit: usize) -> Received {
    let lengths: LittleEndian<u16> = LittleEndian::default();
    let mut reader = PacketReader::new(&lengths);
    loop {
        let wanted = reader.wanted();
        let read = if stream.len() < wanted {
            Err("end of stream")
        } else {
            Ok(stream.drain(..wanted).collect())
        };
        match reader.advance(read, serializer, &lengths, MaxPacketSize(limit)) {
            ReceiveProgress::Read(next) => reader = next,
            ReceiveProgress::Done(result) => return result,
        }
    }
}

fn send(packet: &str) -> Result<Vec<u8>, EncodeError<&'static str, PacketTooLargeError>> {
    let lengths: LittleEndian<u16> = LittleEndian::default();
    let mut serializer: Adapter = SerializerAdapter::ReadOnly(Texts);
    encode_packet::<String, _, _, _>(packet.to_string(), &mut serializer, &lengths)
}

#[test]
fn a_packet_is_prefixed_by_its_length() {
    assert_eq!(send("abc").unwrap(), vec![3, 0, b'a', b'b', b'c']);
    assert_eq!(send("").unwrap(), vec![0, 0]);
    let lengths: BigEndian<u32> = BigEndian::default();
    assert_eq!(frame(&[7, 8], &lengths).unwrap(), vec![0, 0, 0, 2, 7, 8]);
}

#[test]
fn a_packet_that_cannot_be_serialized_is_not_sent() {
    assert!(matches!(send("!x"), Err(EncodeError::Serialization("bad packet"))));
}

#[test]
fn a_packet_that_is_too_long_for_its_prefix_is_not_sent() {
    let long = "x".repeat(65536);
    match send(&long) {
        Err(EncodeError::LengthSerialization(error)) => {
            assert_eq!(error, PacketTooLargeError { max_length: 65535, length: 65536 })
        }
        _ => panic!("the length does not fit"),
    }
    assert_eq!(send(&long[1..]).unwrap().len(), 65537);
}

#[test]
fn packets_come_out_in_order() {
    let mut serializer: Adapter = SerializerAdapter::ReadOnly(Texts);
    let mut stream = Vec::new();
    for packet in ["one", "", "three"] {
        stream.extend(send(packet).unwrap());
    }
    stream.push(9);
    for packet in ["one", "", "three"] {
        assert_eq!(receive_from(&mut stream, &mut serializer, usize::MAX).ok().unwrap(), packet);
    }
    assert_eq!(stream, vec![9]);
}

#[test]
fn a_packet_larger_than_the_limit_is_refused_unread() {
    let mut serializer: Adapter = SerializerAdapter::ReadOnly(Texts);
    let mut stream = send("abcd").unwrap();
    assert!(matches!(
        receive_from(&mut stream, &mut serializer, 3),
        Err(ReceiveError::PacketTooBig)
    ));
    assert_eq!(stream, b"abcd".to_vec());
    let mut stream = send("abc").unwrap();
    assert_eq!(receive_from(&mut stream, &mut serializer, 3).ok().unwrap(), "abc");
}

#[test]
fn errors_of_the_stream_are_passed_on() {
    let mut serializer: Adapter = SerializerAdapter::ReadOnly(Texts);
    for length in 0..5 {
        let mut stream = send("abc").unwrap();
        stream.truncate(length);
        assert!(matches!(
            receive_from(&mut stream, &mut serializer, 10),
            Err(ReceiveError::Io("end of stream"))
        ));
    }
}

#[test]
fn bytes_that_are_no_packet_are_refused() {
    let mut serializer: Adapter = SerializerAdapter::ReadOnly(Texts);
    let mut stream = vec![1, 0, 0xff];
    assert!(matches!(
        receive_from(&mut stream, &mut serializer, 10),
        Err(ReceiveError::Deserialization("bad bytes"))
    ));
}

#[test]
fn a_serializer_with_state_sees_every_packet_once() {
    let mut serializer: Adapter = SerializerAdapter::Mutable(Counting(0));
    let mut stream = vec![2, 0, 1, 2, 3, 0, 1, 2, 3];
    assert_eq!(receive_from(&mut stream, &mut serializer, 10).ok().unwrap(), "1:2");
    assert_eq!(receive_from(&mut stream, &mut serializer, 10).ok().unwrap(), "2:3");
}

#[test]
fn a_length_may_come_in_pieces() {
    let lengths: LittleEndian<u16> = LittleEndian::default();
    let mut serializer: Adapter = SerializerAdapter::ReadOnly(Texts);
    let reader = PacketReader::Length { prefix: vec![0x34], wanted: 1 };
    let read: Result<Vec<u8>, &'static str> = Ok(vec![0x12]);
    match reader.advance::<String, String, _, _, _>(
        read,
        &mut serializer,
        &lengths,
        MaxPacketSize::unlimited(),
    ) {
        ReceiveProgress::Read(next) => assert_eq!(next.wanted(), 0x1234),
        ReceiveProgress::Done(_) => panic!("the packet is not there yet"),
    }
}

#[test]
fn receive_errors_have_texts() {
    type Error = ReceiveError<u8, u8, u8>;
    assert_eq!(Error::Io(1).debug_text("1"), "ReceiveError::Io(1)");
    assert_eq!(Error::Deserialization(2).debug_text("2"), "ReceiveError::Deserialization(2)");
    assert_eq!(
        Error::LengthDeserialization(3).debug_text("3"),
        "ReceiveError::LengthDeserialization(3)"
    );
    assert_eq!(Error::PacketTooBig.debug_text(""), "ReceiveError::PacketTooBig");
    assert_eq!(Error::NoConnection(5).debug_text("5"), "ReceiveError::NoConnection(5)");
    assert_eq!(
        Error::IntentionalDisconnection.debug_text(""),
        "ReceiveError::IntentionalDisconnection"
    );
}

#[test]
fn looking_ahead_succeeds_with_all_bytes_only() {
    assert_eq!(try_peek_exact(Some(4), 4), Ok(()));
    assert_eq!(try_peek_exact(Some(0), 0), Ok(()));
    assert_eq!(try_peek_exact(Some(3), 4), Err(StreamErrorKind::WouldBlock));
    assert_eq!(try_peek_exact(None, 0), Err(StreamErrorKind::WouldBlock));
    assert_eq!(CONNECT_TIMEOUT_SECS, 10);
}
