use bevy_slinet::endian::{decode_be, decode_le, encode_be, encode_le};
use bevy_slinet::packet_length_serializer::{
    BigEndian, LengthNumber, LittleEndian, PacketLengthDeserializationError,
    PacketLengthSerializer, PacketTooLargeError,
};
use bevy_slinet::text::append_decimal;

#[test]
fn little_endian_prefixes_have_exact_bytes() {
    assert_eq!(
        LittleEndian::<u8>::default().serialize_packet_length(200).unwrap(),
        vec![200]
    );
    assert_eq!(
        LittleEndian::<u16>::default().serialize_packet_length(0x1234).unwrap(),
        vec![0x34, 0x12]
    );
    assert_eq!(
        LittleEndian::<u32>::default().serialize_packet_length(0x01020304).unwrap(),
        vec![4, 3, 2, 1]
    );
    assert_eq!(
        LittleEndian::<u64>::default().serialize_packet_length(5).unwrap(),
        vec![5, 0, 0, 0, 0, 0, 0, 0]
    );
    assert_eq!(
        LittleEndian::<u128>::default().serialize_packet_length(0x0506).unwrap(),
        vec![6, 5, 0, 0, 0, 0, 0, 0, 0, 0, 0, 0, 0, 0, 0, 0]
    );
}

#[test]
fn big_endian_prefixes_have_exact_bytes() {
    assert_eq!(
        BigEndian::<u8>::default().serialize_packet_length(200).unwrap(),
        vec![200]
    );
    assert_eq!(
        BigEndian::<u16>::default().serialize_packet_length(0x1234).unwrap(),
        vec![0x12, 0x34]
    );
    assert_eq!(
        BigEndian::<u32>::default().serialize_packet_length(0x01020304).unwrap(),
        vec![1, 2, 3, 4]
    );
    assert_eq!(
        BigEndian::<u64>::default().serialize_packet_length(5).unwrap(),
        vec![0, 0, 0, 0, 0, 0, 0, 5]
    );
    assert_eq!(
        BigEndian::<u128>::default().serialize_packet_length(0x0506).unwrap(),
        vec![0, 0, 0, 0, 0, 0, 0, 0, 0, 0, 0, 0, 0, 0, 5, 6]
    );
}

#[test]
fn prefix_sizes_are_those_of_the_numbers() {
    assert_eq!(<LittleEndian<u8> as PacketLengthSerializer>::SIZE, 1);
    assert_eq!(<BigEndian<u16> as PacketLengthSerializer>::SIZE, 2);
    assert_eq!(<LittleEndian<u32> as PacketLengthSerializer>::SIZE, 4);
    assert_eq!(<BigEndian<u64> as PacketLengthSerializer>::SIZE, 8);
    assert_eq!(<LittleEndian<u128> as PacketLengthSerializer>::SIZE, 16);
}

#[test]
fn prefixes_agree_with_std() {
    for length in [0usize, 1, 255, 256, 65535, 65536, 0xdead_beef] {
        assert_eq!(
            LittleEndian::<u32>::default().serialize_packet_length(length).unwrap(),
            (length as u32).to_le_bytes().to_vec()
        );
        assert_eq!(
            BigEndian::<u64>::default().serialize_packet_length(length).unwrap(),
            (length as u64).to_be_bytes().to_vec()
        );
    }
}

#[test]
fn lengths_read_back() {
    for length in [0usize, 1, 127, 128, 254, 255] {
        let prefix = LittleEndian::<u8>::default().serialize_packet_length(length).unwrap();
        assert_eq!(LittleEndian::<u8>::default().deserialize_packet_length(&prefix).unwrap(), length);
        let prefix = BigEndian::<u128>::default().serialize_packet_length(length).unwrap();
        assert_eq!(BigEndian::<u128>::default().deserialize_packet_length(&prefix).unwrap(), length);
    }
}

#[test]
fn largest_length_fits_and_the_next_does_not() {
    assert!(LittleEndian::<u8>::default().serialize_packet_length(255).is_ok());
    assert_eq!(
        LittleEndian::<u8>::default().serialize_packet_length(256),
        Err(PacketTooLargeError { max_length: 255, length: 256 })
    );
    assert_eq!(
        BigEndian::<u16>::default().serialize_packet_length(65536),
        Err(PacketTooLargeError { max_length: 65535, length: 65536 })
    );
    assert!(BigEndian::<u64>::default().serialize_packet_length(usize::MAX).is_ok());
    assert_eq!(<u16 as LengthNumber>::max_length(), 65535);
    assert_eq!(<u128 as LengthNumber>::max_length(), usize::MAX);
}

#[test]
fn too_large_numbers_are_truncated() {
    let mut prefix = [0u8; 16];
    prefix[0] = 7;
    prefix[15] = 1;
    assert_eq!(LittleEndian::<u128>::default().deserialize_packet_length(&prefix).unwrap(), 7);
}

#[test]
fn too_large_error_has_a_message() {
    let error = PacketTooLargeError { max_length: 255, length: 300 };
    assert_eq!(
        error.message(),
        "The packet is too large (length: 300, max_length: 255)"
    );
}

#[test]
fn byte_orders_are_each_others_reverse() {
    let mut little = encode_le(0x0102_0304_0506, 8);
    let big = encode_be(0x0102_0304_0506, 8);
    assert_eq!(decode_le(&little), 0x0102_0304_0506);
    assert_eq!(decode_be(&big), 0x0102_0304_0506);
    little.reverse();
    assert_eq!(little, big);
}

#[test]
fn decimal_text_is_that_of_std() {
    for number in [0usize, 9, 10, 99, 100, 1234567890, usize::MAX] {
        let mut text = String::from("n=");
        append_decimal(&mut text, number);
        assert_eq!(text, format!("n={}", number));
    }
}

#[test]
fn length_errors_can_be_cloned() {
    let more: PacketLengthDeserializationError<&str> =
        PacketLengthDeserializationError::NeedMoreBytes(3);
    assert!(matches!(more.clone(), PacketLengthDeserializationError::NeedMoreBytes(3)));
    let wrong = PacketLengthDeserializationError::Error("wrong");
    assert!(matches!(wrong.clone(), PacketLengthDeserializationError::Error("wrong")));
}
