use bevy_slinet::address::{first_address, SocketAddr};
use bevy_slinet::connection::{
    max_packet_size_warning_system, send_result, set_max_packet_size_system, ConnectionCounter,
    ConnectionId, DisconnectTasks, EcsConnection, MaxPacketSize, RawConnection, Readiness,
    SendError,
};
use bevy_slinet::protocols::udp::UdpClientStream;
use bevy_slinet::{Schedule, SystemSets};
use tokio::sync::mpsc::unbounded_channel;

const PEER: SocketAddr = SocketAddr::V4 { octets: 0x7f000001, port: 3000 };
const LOCAL: SocketAddr = SocketAddr::V4 { octets: 0x7f000001, port: 40000 };

#[test]
fn ids_are_drawn_one_after_the_other() {
    let mut counter = ConnectionCounter::new();
    let first = ConnectionId::next(&mut counter);
    let second = ConnectionId::next(&mut counter);
    assert!(first != second);
    assert_eq!(first.debug_text(), "#0");
    assert_eq!(second.debug_text(), "#1");
    for _ in 0..8 {
        ConnectionId::next(&mut counter);
    }
    assert_eq!(ConnectionId::next(&mut counter).debug_text(), "#10");
}

#[test]
fn the_limit_is_set_where_it_changed() {
    let unlimited = MaxPacketSize::unlimited();
    assert_eq!(unlimited.0, usize::MAX);
    let set = Some(MaxPacketSize(100));
    assert_eq!(set_max_packet_size_system(unlimited, set, true), MaxPacketSize(100));
    assert_eq!(set_max_packet_size_system(unlimited, set, false), unlimited);
    assert_eq!(set_max_packet_size_system(MaxPacketSize(5), None, true), MaxPacketSize(5));
}

#[test]
fn a_missing_limit_is_warned_of() {
    assert_eq!(max_packet_size_warning_system(Some(MaxPacketSize(1))), None);
    assert_eq!(
        max_packet_size_warning_system(None).unwrap(),
        "You haven't set \"MaxPacketSize\" resource! This is a security risk, please insert it before using this in production."
    );
}

#[test]
fn whoever_waits_for_the_request_to_close_is_woken() {
    let mut tasks = DisconnectTasks::new();
    let task = tasks.create();
    assert!(!tasks.requested(task));
    assert_eq!(tasks.poll(task), Readiness::Pending);
    assert_eq!(tasks.poll(task), Readiness::Pending);
    assert!(tasks.disconnect(task));
    assert!(tasks.requested(task));
    assert_eq!(tasks.poll(task), Readiness::Ready);
    assert!(!tasks.disconnect(task));
    assert_eq!(tasks.poll(task), Readiness::Ready);
}

#[test]
fn a_request_to_close_may_come_first() {
    let mut tasks = DisconnectTasks::new();
    let task = tasks.create();
    assert!(!tasks.disconnect(task));
    assert_eq!(tasks.poll(task), Readiness::Ready);
}

#[test]
fn a_request_reaches_every_clone_and_no_other_connection() {
    let mut tasks = DisconnectTasks::new();
    let task = tasks.create();
    let other = tasks.create();
    let copy = task.clone();
    assert_eq!(tasks.poll(task), Readiness::Pending);
    assert_eq!(tasks.poll(other), Readiness::Pending);
    assert!(tasks.disconnect(copy));
    let later = tasks.create();
    assert_eq!(tasks.poll(task), Readiness::Ready);
    assert_eq!(tasks.poll(copy), Readiness::Ready);
    assert_eq!(tasks.poll(other), Readiness::Pending);
    assert_eq!(tasks.poll(later), Readiness::Pending);
    assert!(tasks.can_create());
}

fn connection<P>(
    tasks: &mut DisconnectTasks,
    packet_tx: tokio::sync::mpsc::UnboundedSender<P>,
) -> EcsConnection<P> {
    EcsConnection {
        disconnect_task: tasks.create(),
        id: ConnectionId::next(&mut ConnectionCounter::new()),
        packet_tx,
        local_addr: LOCAL,
        peer_addr: PEER,
    }
}

#[test]
fn packets_go_through_the_channel() {
    let (tx, mut rx) = unbounded_channel();
    let mut tasks = DisconnectTasks::new();
    let connection = connection(&mut tasks, tx);
    assert_eq!(connection.send("first", &tasks), Ok(()));
    assert_eq!(connection.clone().send("second", &tasks), Ok(()));
    assert_eq!(rx.try_recv(), Ok("first"));
    assert_eq!(rx.try_recv(), Ok("second"));
    assert!(rx.try_recv().is_err());
    drop(rx);
    assert_eq!(connection.send("third", &tasks), Err(SendError("third")));
}

#[test]
fn nothing_is_sent_over_a_closed_connection() {
    let (tx, mut rx) = unbounded_channel();
    let mut tasks = DisconnectTasks::new();
    let connection = connection(&mut tasks, tx);
    let copy = connection.clone();
    assert_eq!(connection.send("before", &tasks), Ok(()));
    assert!(!copy.disconnect(&mut tasks));
    assert_eq!(connection.send("after", &tasks), Err(SendError("after")));
    assert_eq!(copy.send("after", &tasks), Err(SendError("after")));
    // What was sent before is still there, and nothing else.
    assert_eq!(rx.try_recv(), Ok("before"));
    assert!(rx.try_recv().is_err());
}

#[test]
fn a_refused_packet_comes_back() {
    assert_eq!(send_result::<&str>(Ok(())), Ok(()));
    assert_eq!(send_result(Err("packet")), Err(SendError("packet")));
}

#[test]
fn a_clone_is_the_same_connection() {
    let (tx, _rx) = unbounded_channel::<u8>();
    let mut tasks = DisconnectTasks::new();
    let connection = connection(&mut tasks, tx);
    let clone = connection.clone();
    assert!(clone.id() == connection.id());
    assert_eq!(clone.peer_addr(), PEER);
    assert_eq!(clone.local_addr(), LOCAL);
    assert_eq!(clone.disconnect_task, connection.disconnect_task);
    assert!(clone.packet_tx.same_channel(&connection.packet_tx));
    assert_eq!(connection.debug_text(), "Connection #0");
}

#[test]
fn closing_a_connection_reaches_its_task() {
    let (tx, _rx) = unbounded_channel::<u8>();
    let mut tasks = DisconnectTasks::new();
    let connection = connection(&mut tasks, tx);
    assert_eq!(tasks.poll(connection.disconnect_task), Readiness::Pending);
    assert!(connection.disconnect(&mut tasks));
    assert_eq!(tasks.poll(connection.disconnect_task), Readiness::Ready);
}

#[test]
fn the_two_sides_belong_together() {
    let (tx, rx) = unbounded_channel::<u8>();
    let mut counter = ConnectionCounter::new();
    let mut tasks = DisconnectTasks::new();
    ConnectionId::next(&mut counter);
    let raw = RawConnection::new(
        UdpClientStream::new(PEER, LOCAL),
        "serializer",
        "length serializer",
        rx,
        &mut counter,
        &mut tasks,
    );
    let ecs = raw.ecs_side(tx);
    assert_eq!(raw.debug_text(), "RawConnection #1");
    assert!(ecs.id() == raw.id());
    assert_eq!(ecs.peer_addr(), PEER);
    assert_eq!(ecs.local_addr(), LOCAL);
    assert_eq!(raw.peer_addr(), PEER);
    assert_eq!(raw.local_addr(), LOCAL);
    assert_eq!(ecs.disconnect_task, raw.disconnect_task);
    assert_eq!(raw.serializer, "serializer");
    assert_eq!(raw.packet_length_serializer, "length serializer");
    let mut rx = raw.packets_rx;
    assert_eq!(ecs.send(5, &tasks), Ok(()));
    assert_eq!(rx.try_recv(), Ok(5));
}

#[test]
fn the_first_address_is_used() {
    assert_eq!(first_address(&vec![]), None);
    assert_eq!(first_address(&vec![PEER, LOCAL]), Some(PEER));
}

#[test]
fn addresses_have_keys_of_their_own() {
    let v6 = |segments, port, flowinfo, scope_id| SocketAddr::V6 {
        segments,
        port,
        flowinfo,
        scope_id,
    };
    assert_eq!(PEER.key(), (4, 0x7f000001, 3000, 0, 0));
    assert_eq!(v6(0x7f000001, 3000, 0, 0).key(), (6, 0x7f000001, 3000, 0, 0));
    assert_eq!(v6(1, 2, 3, 4).key(), (6, 1, 2, 3, 4));
    assert_ne!(v6(1, 2, 3, 4).key(), v6(1, 2, 4, 3).key());
    assert_ne!(PEER.key(), LOCAL.key());
}

#[test]
fn systems_run_when_they_should() {
    assert_eq!(SystemSets::MaxPacketSizeWarning.schedule(), Schedule::Startup);
    assert_eq!(SystemSets::SetMaxPacketSize.schedule(), Schedule::Update);
    assert_eq!(SystemSets::ClientConnectionRequest.schedule(), Schedule::PreUpdate);
    assert_eq!(SystemSets::ClientConnectionEstablish.schedule(), Schedule::PreUpdate);
    assert_eq!(SystemSets::ClientConnectionRemove.schedule(), Schedule::PostUpdate);
    assert_eq!(SystemSets::ClientPacketReceive.schedule(), Schedule::PostUpdate);
    assert_eq!(SystemSets::ServerAcceptNewConnections.schedule(), Schedule::PreUpdate);
    assert_eq!(SystemSets::ServerAcceptNewPackets.schedule(), Schedule::PreUpdate);
    assert_eq!(SystemSets::ServerRemoveConnections.schedule(), Schedule::PostUpdate);
    assert_eq!(SystemSets::ServerConnectionAdd.schedule(), Schedule::PostUpdate);
}
