//! Every packet on the wire is prefixed by its length.
use crate::endian;
use crate::text;
use std::marker::PhantomData;
use vstd::prelude::*;

verus! {

/// Controls how the length of a packet is written and read.
///
/// `encoded` and `decoded` say what the two methods return; `accepts` says which
/// buffers a length can be read from.
pub trait PacketLengthSerializer: Send + Sync + Sized + 'static {
    /// The serializer's error type.
    type Error;

    /// How many bytes are read before the length is first looked for. For `u16`
    /// it is 2.
    const SIZE: usize;

    /// What the length prefix of a packet of `length` bytes is.
    spec fn encoded(&self, length: usize) -> Result<Seq<u8>, Self::Error>;

    /// Whether `deserialize_packet_length` may be handed `buffer`.
    spec fn accepts(&self, buffer: Seq<u8>) -> bool;

    /// What length the prefix `buffer` announces.
    spec fn decoded(&self, buffer: Seq<u8>) -> Result<
        usize,
        PacketLengthDeserializationError<Self::Error>,
    >;

    /// A length can be looked for in the first [`Self::SIZE`] bytes, whatever they are.
    proof fn accepts_first_bytes(&self, buffer: Seq<u8>)
        requires
            buffer.len() == Self::SIZE,
        ensures
            self.accepts(buffer),
    ;

    /// Where more bytes were asked for, a length can be looked for once they are
    /// there, whatever they are.
    proof fn accepts_more_bytes(&self, buffer: Seq<u8>, more: Seq<u8>)
        requires
            self.accepts(buffer),
            more.len() <= usize::MAX,
        ensures
            self.decoded(buffer) == Err::<usize, PacketLengthDeserializationError<Self::Error>>(
                PacketLengthDeserializationError::NeedMoreBytes(more.len() as usize),
            ) ==> self.accepts(buffer + more),
    ;

    /// Serializes a packet's length.
    fn serialize_packet_length(&self, length: usize) -> (result: Result<Vec<u8>, Self::Error>)
        ensures
            viewed(result) == self.encoded(length),
    ;

    /// Deserializes a packet's length.
    fn deserialize_packet_length(&self, buffer: &[u8]) -> (result: Result<
        usize,
        PacketLengthDeserializationError<Self::Error>,
    >)
        requires
            self.accepts(buffer@),
        ensures
            result == self.decoded(buffer@),
    ;
}

/// A result that holds bytes, with the bytes taken by their view.
pub open spec fn viewed<E>(result: Result<Vec<u8>, E>) -> Result<Seq<u8>, E> {
    match result {
        Ok(bytes) => Ok(bytes@),
        Err(error) => Err(error),
    }
}

/// What [`PacketLengthSerializer::deserialize_packet_length`] may return in place
/// of a length.
#[derive(Debug)]
pub enum PacketLengthDeserializationError<E> {
    /// So many further bytes are needed. This is for serializers whose length
    /// prefix has no fixed size, e.g. 1 byte for small packets and 2 bytes for
    /// larger ones.
    NeedMoreBytes(usize),
    /// The prefix is wrong.
    Error(E),
}

impl<E: Clone> Clone for PacketLengthDeserializationError<E> {
    fn clone(&self) -> (error: Self)
        ensures
            match *self {
                PacketLengthDeserializationError::NeedMoreBytes(amount) => error
                    == PacketLengthDeserializationError::<E>::NeedMoreBytes(amount),
                PacketLengthDeserializationError::Error(source) => {
                    &&& error matches PacketLengthDeserializationError::Error(copy)
                    &&& cloned(source, copy)
                },
            },
    {
        match self {
            PacketLengthDeserializationError::NeedMoreBytes(amount) => {
                PacketLengthDeserializationError::NeedMoreBytes(*amount)
            },
            PacketLengthDeserializationError::Error(source) => {
                PacketLengthDeserializationError::Error(source.clone())
            },
        }
    }
}

/// The packet is longer than the number in front of it can say. Given by
/// [`BigEndian`] and [`LittleEndian`].
#[derive(Debug, PartialEq, Eq, Structural)]
pub struct PacketTooLargeError {
    /// The maximum allowed packet length.
    pub max_length: usize,
    /// The actual packet's length.
    pub length: usize,
}

impl PacketTooLargeError {
    /// The error as a message for people.
    pub fn message(&self) -> (message: String)
        ensures
            message@ == "The packet is too large (length: "@ + text::decimal(self.length as nat)
                + ", max_length: "@ + text::decimal(self.max_length as nat) + ")"@,
    {
        let mut message: String = String::new();
        message.append("The packet is too large (length: ");
        text::append_decimal(&mut message, self.length);
        message.append(", max_length: ");
        text::append_decimal(&mut message, self.max_length);
        message.append(")");
        message
    }
}

/// A number type that a packet length can be written as.
pub trait LengthNumber: Send + Sync + 'static {
    /// The size of the number in bytes.
    const BYTES: usize;

    /// The size of the number in bytes.
    spec fn width() -> nat;

    /// A number has at least one byte and at most as many as a `u128`.
    proof fn width_in_range()
        ensures
            Self::BYTES == Self::width(),
            1 <= Self::width() <= endian::MAX_WIDTH,
    ;

    /// The largest packet length that the number can hold.
    fn max_length() -> (max: usize)
        ensures
            max == max_length(Self::width()),
    ;
}

/// The largest packet length that `width` bytes can hold.
pub open spec fn max_length(width: nat) -> usize {
    if endian::pow256(width) - 1 < usize::MAX {
        (endian::pow256(width) - 1) as usize
    } else {
        usize::MAX
    }
}

impl LengthNumber for u8 {
    const BYTES: usize = 1;

    open spec fn width() -> nat {
        1
    }

    proof fn width_in_range() {
    }

    fn max_length() -> (max: usize) {
        proof {
            endian::lemma_pow256_widths();
        }
        u8::MAX as usize
    }
}

impl LengthNumber for u16 {
    const BYTES: usize = 2;

    open spec fn width() -> nat {
        2
    }

    proof fn width_in_range() {
    }

    fn max_length() -> (max: usize) {
        proof {
            endian::lemma_pow256_widths();
        }
        u16::MAX as usize
    }
}

impl LengthNumber for u32 {
    const BYTES: usize = 4;

    open spec fn width() -> nat {
        4
    }

    proof fn width_in_range() {
    }

    fn max_length() -> (max: usize) {
        proof {
            endian::lemma_pow256_widths();
        }
        u32::MAX as usize
    }
}

impl LengthNumber for u64 {
    const BYTES: usize = 8;

    open spec fn width() -> nat {
        8
    }

    proof fn width_in_range() {
    }

    fn max_length() -> (max: usize) {
        proof {
            endian::lemma_pow256_widths();
        }
        usize::MAX
    }
}

impl LengthNumber for u128 {
    const BYTES: usize = 16;

    open spec fn width() -> nat {
        16
    }

    proof fn width_in_range() {
    }

    fn max_length() -> (max: usize) {
        proof {
            endian::lemma_pow256_widths();
        }
        usize::MAX
    }
}

/// `value`, or where a `usize` cannot hold it the lowest bits of it that it can hold.
pub open spec fn truncated(value: nat) -> usize {
    (value % (usize::MAX + 1) as nat) as usize
}

fn truncate(value: u128) -> (result: usize)
    ensures
        result == truncated(value as nat),
{
    (value % (usize::MAX as u128 + 1)) as usize
}

/// Serializes the packet length as a little-endian number.
pub struct LittleEndian<N>(PhantomData<N>);

/// Serializes the packet length as a big-endian number.
pub struct BigEndian<N>(PhantomData<N>);

impl<N> Default for LittleEndian<N> {
    fn default() -> Self {
        LittleEndian(PhantomData)
    }
}

impl<N> Default for BigEndian<N> {
    fn default() -> Self {
        BigEndian(PhantomData)
    }
}

impl<N: LengthNumber> PacketLengthSerializer for LittleEndian<N> {
    type Error = PacketTooLargeError;

    const SIZE: usize = N::BYTES;

    open spec fn encoded(&self, length: usize) -> Result<Seq<u8>, PacketTooLargeError> {
        let max = max_length(N::width());
        if length > max {
            Err(PacketTooLargeError { max_length: max, length })
        } else {
            Ok(endian::le_bytes(length as nat, N::width()))
        }
    }

    open spec fn accepts(&self, buffer: Seq<u8>) -> bool {
        buffer.len() == N::width()
    }

    open spec fn decoded(&self, buffer: Seq<u8>) -> Result<
        usize,
        PacketLengthDeserializationError<PacketTooLargeError>,
    > {
        Ok(truncated(endian::le_value(buffer)))
    }

    proof fn accepts_first_bytes(&self, buffer: Seq<u8>) {
        N::width_in_range();
    }

    proof fn accepts_more_bytes(&self, buffer: Seq<u8>, more: Seq<u8>) {
    }

    fn serialize_packet_length(&self, length: usize) -> (result: Result<
        Vec<u8>,
        PacketTooLargeError,
    >) {
        proof {
            N::width_in_range();
        }
        let max: usize = N::max_length();
        if length > max {
            Err(PacketTooLargeError { max_length: max, length })
        } else {
            Ok(endian::encode_le(length as u128, N::BYTES))
        }
    }

    fn deserialize_packet_length(&self, buffer: &[u8]) -> (result: Result<
        usize,
        PacketLengthDeserializationError<PacketTooLargeError>,
    >) {
        proof {
            N::width_in_range();
        }
        Ok(truncate(endian::decode_le(buffer)))
    }
}

impl<N: LengthNumber> PacketLengthSerializer for BigEndian<N> {
    type Error = PacketTooLargeError;

    const SIZE: usize = N::BYTES;

    open spec fn encoded(&self, length: usize) -> Result<Seq<u8>, PacketTooLargeError> {
        let max = max_length(N::width());
        if length > max {
            Err(PacketTooLargeError { max_length: max, length })
        } else {
            Ok(endian::be_bytes(length as nat, N::width()))
        }
    }

    open spec fn accepts(&self, buffer: Seq<u8>) -> bool {
        buffer.len() == N::width()
    }

    open spec fn decoded(&self, buffer: Seq<u8>) -> Result<
        usize,
        PacketLengthDeserializationError<PacketTooLargeError>,
    > {
        Ok(truncated(endian::be_value(buffer)))
    }

    proof fn accepts_first_bytes(&self, buffer: Seq<u8>) {
        N::width_in_range();
    }

    proof fn accepts_more_bytes(&self, buffer: Seq<u8>, more: Seq<u8>) {
    }

    fn serialize_packet_length(&self, length: usize) -> (result: Result<
        Vec<u8>,
        PacketTooLargeError,
    >) {
        proof {
            N::width_in_range();
        }
        let max: usize = N::max_length();
        if length > max {
            Err(PacketTooLargeError { max_length: max, length })
        } else {
            Ok(endian::encode_be(length as u128, N::BYTES))
        }
    }

    fn deserialize_packet_length(&self, buffer: &[u8]) -> (result: Result<
        usize,
        PacketLengthDeserializationError<PacketTooLargeError>,
    >) {
        proof {
            N::width_in_range();
        }
        Ok(truncate(endian::decode_be(buffer)))
    }
}

/// A prefix has as many bytes as its number, in both byte orders.
pub proof fn law_prefix_sizes<N: LengthNumber>()
    ensures
        <LittleEndian<N> as PacketLengthSerializer>::SIZE == N::width(),
        <BigEndian<N> as PacketLengthSerializer>::SIZE == N::width(),
{
    N::width_in_range();
}

/// A serializer writes every length up to `limit` as [`PacketLengthSerializer::SIZE`]
/// bytes that it reads back as the same length.
pub open spec fn round_trips_up_to<LS: PacketLengthSerializer>(
    serializer: LS,
    limit: usize,
) -> bool {
    forall|length: usize| #![trigger serializer.encoded(length)]
        length <= limit ==> {
            &&& serializer.encoded(length) is Ok
            &&& serializer.encoded(length)->Ok_0.len() == LS::SIZE
            &&& serializer.decoded(serializer.encoded(length)->Ok_0) == Ok::<
                usize,
                PacketLengthDeserializationError<LS::Error>,
            >(length)
        }
}

/// A little-endian prefix reads back as the length it was written for, for every
/// length that the number can hold; a longer packet is refused.
pub proof fn law_little_endian_round_trip<N: LengthNumber>(serializer: LittleEndian<N>)
    ensures
        round_trips_up_to(serializer, max_length(N::width())),
        forall|length: usize|
            length > max_length(N::width()) <==> #[trigger] serializer.encoded(length) is Err,
{
    N::width_in_range();
    endian::lemma_pow256_increases(1, N::width());
    assert forall|length: usize| #![trigger serializer.encoded(length)]
        length <= max_length(N::width()) implies {
        &&& serializer.encoded(length) is Ok
        &&& serializer.encoded(length)->Ok_0.len() == <LittleEndian<
            N,
        > as PacketLengthSerializer>::SIZE
        &&& serializer.decoded(serializer.encoded(length)->Ok_0) == Ok::<
            usize,
            PacketLengthDeserializationError<PacketTooLargeError>,
        >(length)
    } by {
        endian::law_le_round_trip(length as nat, N::width());
        vstd::arithmetic::div_mod::lemma_small_mod(length as nat, (usize::MAX + 1) as nat);
    }
}

/// A big-endian prefix reads back as the length it was written for, for every
/// length that the number can hold; a longer packet is refused.
pub proof fn law_big_endian_round_trip<N: LengthNumber>(serializer: BigEndian<N>)
    ensures
        round_trips_up_to(serializer, max_length(N::width())),
        forall|length: usize|
            length > max_length(N::width()) <==> #[trigger] serializer.encoded(length) is Err,
{
    N::width_in_range();
    endian::lemma_pow256_increases(1, N::width());
    assert forall|length: usize| #![trigger serializer.encoded(length)]
        length <= max_length(N::width()) implies {
        &&& serializer.encoded(length) is Ok
        &&& serializer.encoded(length)->Ok_0.len() == <BigEndian<N> as PacketLengthSerializer>::SIZE
        &&& serializer.decoded(serializer.encoded(length)->Ok_0) == Ok::<
            usize,
            PacketLengthDeserializationError<PacketTooLargeError>,
        >(length)
    } by {
        endian::law_be_round_trip(length as nat, N::width());
        vstd::arithmetic::div_mod::lemma_small_mod(length as nat, (usize::MAX + 1) as nat);
    }
}

/// The two byte orders differ in nothing but the order of the bytes.
pub proof fn law_big_endian_is_reversed_little_endian<N: LengthNumber>(
    little: LittleEndian<N>,
    big: BigEndian<N>,
    length: usize,
)
    ensures
        little.encoded(length) is Ok <==> big.encoded(length) is Ok,
        little.encoded(length) is Ok ==> big.encoded(length)->Ok_0
            == little.encoded(length)->Ok_0.reverse(),
{
}

/// A little-endian prefix denotes the length itself: its bytes are the digits of the
/// length to the base `256`, the lowest one first, so that their sum, the i-th one times
/// `256` to the power of i, is the length. A length that needs more digits than there
/// are bytes is refused, and the error says what it is and what would have been allowed.
pub proof fn law_little_endian_prefix_denotes_the_length<N: LengthNumber>(
    serializer: LittleEndian<N>,
    length: usize,
)
    ensures
        length < vstd::arithmetic::power::pow(256, N::width()) ==> {
            &&& serializer.encoded(length) is Ok
            &&& serializer.encoded(length)->Ok_0.len() == N::width()
            &&& forall|i: int|
                0 <= i < N::width() ==> #[trigger] serializer.encoded(length)->Ok_0[i] == (
                length as int / vstd::arithmetic::power::pow(256, i as nat)) % 256
            &&& serializer.encoded(length)->Ok_0.map(
                |i: int, byte: u8| byte * vstd::arithmetic::power::pow(256, i as nat),
            ).fold_left(0int, |sum: int, term: int| sum + term) == length
        },
        length >= vstd::arithmetic::power::pow(256, N::width()) ==> {
            &&& serializer.encoded(length) is Err
            &&& serializer.encoded(length)->Err_0.length == length
            &&& serializer.encoded(length)->Err_0.max_length + 1 == vstd::arithmetic::power::pow(
                256,
                N::width(),
            )
        },
{
    endian::law_pow256_is_a_power(N::width());
    endian::lemma_pow256_increases(0, N::width());
    endian::law_le_bytes_are_digits(length as nat, N::width());
    if length < endian::pow256(N::width()) {
        endian::law_le_round_trip(length as nat, N::width());
        endian::law_le_value_is_the_sum_of_its_bytes(serializer.encoded(length)->Ok_0);
    }
}

/// A big-endian prefix denotes the length itself: its bytes are the digits of the
/// length to the base `256`, the highest one first. A length that needs more digits
/// than there are bytes is refused, and the error says what it is and what would have
/// been allowed.
pub proof fn law_big_endian_prefix_denotes_the_length<N: LengthNumber>(
    serializer: BigEndian<N>,
    length: usize,
)
    ensures
        length < vstd::arithmetic::power::pow(256, N::width()) ==> {
            &&& serializer.encoded(length) is Ok
            &&& serializer.encoded(length)->Ok_0.len() == N::width()
            &&& forall|i: int|
                0 <= i < N::width() ==> #[trigger] serializer.encoded(length)->Ok_0[i] == (
                length as int / vstd::arithmetic::power::pow(256, (N::width() - 1 - i) as nat))
                    % 256
            &&& serializer.encoded(length)->Ok_0.reverse().map(
                |i: int, byte: u8| byte * vstd::arithmetic::power::pow(256, i as nat),
            ).fold_left(0int, |sum: int, term: int| sum + term) == length
        },
        length >= vstd::arithmetic::power::pow(256, N::width()) ==> {
            &&& serializer.encoded(length) is Err
            &&& serializer.encoded(length)->Err_0.length == length
            &&& serializer.encoded(length)->Err_0.max_length + 1 == vstd::arithmetic::power::pow(
                256,
                N::width(),
            )
        },
{
    endian::law_pow256_is_a_power(N::width());
    endian::lemma_pow256_increases(0, N::width());
    endian::law_le_bytes_are_digits(length as nat, N::width());
    if length < endian::pow256(N::width()) {
        endian::law_be_round_trip(length as nat, N::width());
        endian::law_le_value_is_the_sum_of_its_bytes(serializer.encoded(length)->Ok_0.reverse());
    }
}

/// Reading a prefix gives the sum of its bytes, in little-endian order the i-th one and
/// in big-endian order the i-th one from the end times `256` to the power of i, or the
/// lowest bits of it where a `usize` cannot hold it. Every prefix can be read that has
/// as many bytes as the number.
pub proof fn law_prefixes_are_read_as_the_sum_of_their_bytes<N: LengthNumber>(
    little: LittleEndian<N>,
    big: BigEndian<N>,
    buffer: Seq<u8>,
)
    ensures
        little.accepts(buffer) <==> buffer.len() == N::width(),
        big.accepts(buffer) <==> buffer.len() == N::width(),
        little.decoded(buffer) is Ok,
        little.decoded(buffer)->Ok_0 == buffer.map(
            |i: int, byte: u8| byte * vstd::arithmetic::power::pow(256, i as nat),
        ).fold_left(0int, |sum: int, term: int| sum + term) % (usize::MAX + 1),
        big.decoded(buffer) is Ok,
        big.decoded(buffer)->Ok_0 == buffer.reverse().map(
            |i: int, byte: u8| byte * vstd::arithmetic::power::pow(256, i as nat),
        ).fold_left(0int, |sum: int, term: int| sum + term) % (usize::MAX + 1),
{
    endian::law_le_value_is_the_sum_of_its_bytes(buffer);
    endian::law_le_value_is_the_sum_of_its_bytes(buffer.reverse());
}

/// A number has as many bytes as its type: it can tell apart as many lengths as there
/// are values of the type.
pub proof fn law_widths_are_those_of_the_types()
    ensures
        vstd::arithmetic::power::pow(256, <u8 as LengthNumber>::width()) == u8::MAX + 1,
        vstd::arithmetic::power::pow(256, <u16 as LengthNumber>::width()) == u16::MAX + 1,
        vstd::arithmetic::power::pow(256, <u32 as LengthNumber>::width()) == u32::MAX + 1,
        vstd::arithmetic::power::pow(256, <u64 as LengthNumber>::width()) == u64::MAX + 1,
        vstd::arithmetic::power::pow(256, <u128 as LengthNumber>::width()) == u128::MAX + 1,
{
    endian::lemma_pow256_widths();
    endian::law_pow256_is_a_power(1);
    endian::law_pow256_is_a_power(2);
    endian::law_pow256_is_a_power(4);
    endian::law_pow256_is_a_power(8);
    endian::law_pow256_is_a_power(16);
}

/// Bytes are taken as they are, and so are errors.
pub proof fn law_views_keep_results<E>(bytes: Vec<u8>, error: E)
    ensures
        viewed(Ok::<Vec<u8>, E>(bytes)) == Ok::<Seq<u8>, E>(bytes@),
        viewed(Err::<Vec<u8>, E>(error)) == Err::<Seq<u8>, E>(error),
{
}

} // verus!
