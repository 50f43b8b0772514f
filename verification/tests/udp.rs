use bevy_slinet::address::SocketAddr;
use bevy_slinet::connection::MaxPacketSize;
use bevy_slinet::packet_length_serializer::{BigEndian, PacketTooLargeError};
use bevy_slinet::protocol::{
    frame, NetworkStream, PacketReader, ReceiveError, ReceiveProgress, StreamErrorKind,
};
use bevy_slinet::protocols::udp::{
    assert_all, UdpAccepted, UdpClientStream, UdpNetworkListener, UdpServerReadHalf,
    UdpServerStream, BUFFER_SIZE,
};
use bevy_slinet::serializer::Serializer;

const SERVER: SocketAddr = SocketAddr::V4 { octets: 0x7f000001, port: 3000 };
const ANNE: SocketAddr = SocketAddr::V4 { octets: 0x7f000001, port: 40000 };
const BO: SocketAddr = SocketAddr::V6 { segments: 1, port: 40000, flowinfo: 0, scope_id: 0 };

fn open_with(
    listener: &mut UdpNetworkListener,
    address: SocketAddr,
    bytes: &[u8],
) -> UdpServerStream {
    match listener.accept(address, bytes) {
        UdpAccepted::Opened(stream) => stream,
        UdpAccepted::Received(_) => panic!("a new address opens a connection"),
    }
}

fn open(listener: &mut UdpNetworkListener, address: SocketAddr) -> UdpServerStream {
    open_with(listener, address, &[])
}

/// The task that the bytes are for.
fn receive_bytes(listener: &mut UdpNetworkListener, address: SocketAddr, bytes: &[u8]) -> u64 {
    match listener.accept(address, bytes) {
        UdpAccepted::Received(task) => task,
        UdpAccepted::Opened(_) => panic!("the address has a connection"),
    }
}

fn read(half: &UdpServerReadHalf, listener: &mut UdpNetworkListener, n: usize) -> Option<Vec<u8>> {
    half.read_exact(n).poll(listener)
}

#[test]
fn the_first_datagram_opens_a_connection() {
    let mut listener = UdpNetworkListener::new(SERVER);
    assert_eq!(listener.address(), SERVER);
    let stream = open_with(&mut listener, ANNE, &[1, 2, 3]);
    assert_eq!(stream.peer_addr(), ANNE);
    assert_eq!(stream.local_addr(), SERVER);
    let (half, write) = stream.into_split();
    assert_eq!(write.peer_addr(), ANNE);
    // Its bytes are not part of the stream.
    assert_eq!(read(&half, &mut listener, 1), None);
    assert_eq!(read(&half, &mut listener, 0), Some(vec![]));
}

#[test]
fn later_datagrams_make_a_stream() {
    let mut listener = UdpNetworkListener::new(SERVER);
    let (half, _) = open(&mut listener, ANNE).into_split();
    assert_eq!(receive_bytes(&mut listener, ANNE, &[]), half.task());
    assert_eq!(receive_bytes(&mut listener, ANNE, &[1, 2, 3]), half.task());
    assert_eq!(read(&half, &mut listener, 2), Some(vec![1, 2]));
    assert_eq!(read(&half, &mut listener, 2), None);
    assert_eq!(receive_bytes(&mut listener, ANNE, &[4, 5]), half.task());
    assert_eq!(read(&half, &mut listener, 2), Some(vec![3, 4]));
    assert_eq!(read(&half, &mut listener, 1), Some(vec![5]));
    assert_eq!(read(&half, &mut listener, 1), None);
}

#[test]
fn connections_do_not_mix() {
    let mut listener = UdpNetworkListener::new(SERVER);
    let (anne, _) = open(&mut listener, ANNE).into_split();
    let (bo, _) = open(&mut listener, BO).into_split();
    listener.accept(BO, &[7]);
    listener.accept(ANNE, &[8]);
    listener.accept(BO, &[9]);
    assert_eq!(read(&anne, &mut listener, 1), Some(vec![8]));
    assert_eq!(read(&bo, &mut listener, 2), Some(vec![7, 9]));
}

#[test]
fn cuts_between_datagrams_do_not_show() {
    let mut one = UdpNetworkListener::new(SERVER);
    let mut two = UdpNetworkListener::new(SERVER);
    let (one_half, _) = open(&mut one, ANNE).into_split();
    let (two_half, _) = open(&mut two, ANNE).into_split();
    one.accept(ANNE, &[1, 2, 3, 4]);
    two.accept(ANNE, &[1]);
    two.accept(ANNE, &[2, 3, 4]);
    assert_eq!(read(&one_half, &mut one, 4), read(&two_half, &mut two, 4));
}

#[test]
fn a_closed_connection_can_be_opened_again() {
    let mut listener = UdpNetworkListener::new(SERVER);
    let (old, _) = open(&mut listener, ANNE).into_split();
    let (bo, _) = open(&mut listener, BO).into_split();
    listener.accept(ANNE, &[1, 2]);
    listener.accept(BO, &[3]);
    listener.handle_disconnection(ANNE);
    let (new, _) = open_with(&mut listener, ANNE, &[9]).into_split();
    assert_eq!(receive_bytes(&mut listener, ANNE, &[4]), new.task());
    assert_eq!(read(&new, &mut listener, 1), Some(vec![4]));
    assert_eq!(read(&new, &mut listener, 1), None);
    // What waited for the old connection still does, and the others go on.
    assert_eq!(read(&old, &mut listener, 2), Some(vec![1, 2]));
    assert_eq!(receive_bytes(&mut listener, BO, &[5]), bo.task());
    assert_eq!(read(&bo, &mut listener, 2), Some(vec![3, 5]));
}

#[test]
fn a_connection_that_nobody_reads_from_is_freed() {
    let mut listener = UdpNetworkListener::new(SERVER);
    let (half, _) = open(&mut listener, ANNE).into_split();
    let (bo, _) = open(&mut listener, BO).into_split();
    let read_task = half.read_exact(1);
    let task = half.task();
    listener.accept(ANNE, &[1]);
    listener.release(half);
    assert_eq!(read_task.poll(&mut listener), None);
    // The address keeps its connection until that is closed, but no bytes are kept.
    assert_eq!(receive_bytes(&mut listener, ANNE, &[2]), task);
    assert_eq!(read_task.poll(&mut listener), None);
    listener.handle_disconnection(ANNE);
    let (again, _) = open(&mut listener, ANNE).into_split();
    assert_ne!(again.task(), task);
    listener.accept(BO, &[3]);
    assert_eq!(read(&bo, &mut listener, 1), Some(vec![3]));
    assert!(listener.can_accept(ANNE));
}

#[test]
fn closing_an_unknown_connection_does_nothing() {
    let mut listener = UdpNetworkListener::new(SERVER);
    let stream = open(&mut listener, ANNE);
    listener.handle_disconnection(BO);
    assert_eq!(receive_bytes(&mut listener, ANNE, &[1]), stream.task());
}

#[test]
fn clients_buffer_what_they_did_not_ask_for() {
    let stream = UdpClientStream::new(SERVER, ANNE);
    assert_eq!(stream.peer_addr(), SERVER);
    assert_eq!(stream.local_addr(), ANNE);
    let mut half = stream.read_half();
    assert_eq!(half.read_exact(0), Some(vec![]));
    assert_eq!(half.read_exact(1), None);
    half.receive(&[1, 2, 3]);
    assert_eq!(half.read_exact(4), None);
    assert_eq!(half.read_exact(2), Some(vec![1, 2]));
    half.receive(&[4]);
    assert_eq!(half.read_exact(2), Some(vec![3, 4]));
    assert_eq!(half.read_exact(1), None);
}

#[test]
fn a_datagram_goes_out_whole_or_fails() {
    assert_eq!(assert_all(2, &[1, 2]), Ok(()));
    assert_eq!(assert_all(0, &[]), Ok(()));
    assert_eq!(assert_all(1, &[1, 2]), Err(StreamErrorKind::BrokenPipe));
    assert_eq!(BUFFER_SIZE, 65535);
}

/// Packets are their own bytes.
struct Plain;

impl Serializer<Vec<u8>, Vec<u8>> for Plain {
    type Error = ();

    fn serialize(&mut self, packet: Vec<u8>) -> Result<Vec<u8>, ()> {
        Ok(packet)
    }

    fn deserialize(&mut self, data: &[u8]) -> Result<Vec<u8>, ()> {
        Ok(data.to_vec())
    }
}

/// Reads a packet, or says that datagrams are missing.
fn receive(
    half: &UdpServerReadHalf,
    listener: &mut UdpNetworkListener,
) -> Result<Vec<u8>, ReceiveError<(), (), PacketTooLargeError>> {
    let lengths: BigEndian<u16> = BigEndian::default();
    let mut reader = PacketReader::new(&lengths);
    loop {
        let bytes = read(half, listener, reader.wanted()).ok_or(());
        match reader.advance(bytes, &mut Plain, &lengths, MaxPacketSize(100)) {
            ReceiveProgress::Read(next) => reader = next,
            ReceiveProgress::Done(result) => return result,
        }
    }
}

#[test]
fn packets_arrive_in_datagrams() {
    let lengths: BigEndian<u16> = BigEndian::default();
    let mut listener = UdpNetworkListener::new(SERVER);
    let (half, _) = open(&mut listener, ANNE).into_split();
    let payloads: [&[u8]; 4] = [&[1, 2, 3], &[], &[4], &[5; 100]];
    for payload in payloads {
        assert_eq!(receive_bytes(&mut listener, ANNE, &frame(payload, &lengths).unwrap()), half.task());
    }
    for payload in payloads {
        assert_eq!(receive(&half, &mut listener).ok().unwrap(), payload);
    }
    assert!(matches!(receive(&half, &mut listener), Err(ReceiveError::Io(()))));
}
