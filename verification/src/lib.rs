//! A networking library: clients and servers exchange packets over a protocol of
//! their choice. Every decision it makes is proved; sockets, tasks and the game loop
//! belong to the program around it.
pub mod address;
pub mod client;
pub mod connection;
pub mod connections;
pub mod endian;
pub mod packet_length_serializer;
pub mod protocol;
pub mod protocols;
pub mod serializer;
pub mod serializers;
pub mod server;
pub mod tasks;
pub mod text;

use vstd::prelude::*;

verus! {

/// The sets that the systems of the two plugins belong to, for other systems to be
/// ordered by.
#[derive(Debug, Clone, Copy, PartialEq, Eq, Hash, Structural)]
pub enum SystemSets {
    ClientPacketReceive,
    ClientConnectionEstablish,
    ClientConnectionRemove,
    ClientConnectionRequest,
    ServerConnectionAdd,
    ServerAcceptNewConnections,
    ServerAcceptNewPackets,
    ServerRemoveConnections,
    SetMaxPacketSize,
    MaxPacketSizeWarning,
}

/// When a system runs: once at the start, or in every frame, before, in or after its
/// main part.
#[derive(Debug, Clone, Copy, PartialEq, Eq, Hash, Structural)]
pub enum Schedule {
    Startup,
    PreUpdate,
    Update,
    PostUpdate,
}

impl Schedule {
    /// The place of the schedule in a frame, for those that run in every frame.
    pub open spec fn place(self) -> Option<int> {
        match self {
            Schedule::Startup => None,
            Schedule::PreUpdate => Some(0),
            Schedule::Update => Some(1),
            Schedule::PostUpdate => Some(2),
        }
    }
}

impl SystemSets {
    /// When the system of the set runs.
    pub open spec fn spec_schedule(self) -> Schedule {
        match self {
            SystemSets::MaxPacketSizeWarning => Schedule::Startup,
            SystemSets::ClientConnectionRequest
            | SystemSets::ClientConnectionEstablish
            | SystemSets::ServerAcceptNewConnections
            | SystemSets::ServerAcceptNewPackets => Schedule::PreUpdate,
            SystemSets::SetMaxPacketSize => Schedule::Update,
            SystemSets::ClientConnectionRemove
            | SystemSets::ClientPacketReceive
            | SystemSets::ServerRemoveConnections
            | SystemSets::ServerConnectionAdd => Schedule::PostUpdate,
        }
    }

    /// When the system of the set runs.
    pub fn schedule(self) -> (schedule: Schedule)
        ensures
            schedule == self.spec_schedule(),
    {
        match self {
            SystemSets::MaxPacketSizeWarning => Schedule::Startup,
            SystemSets::ClientConnectionRequest
            | SystemSets::ClientConnectionEstablish
            | SystemSets::ServerAcceptNewConnections
            | SystemSets::ServerAcceptNewPackets => Schedule::PreUpdate,
            SystemSets::SetMaxPacketSize => Schedule::Update,
            SystemSets::ClientConnectionRemove
            | SystemSets::ClientPacketReceive
            | SystemSets::ServerRemoveConnections
            | SystemSets::ServerConnectionAdd => Schedule::PostUpdate,
        }
    }
}

impl SystemSets {
    /// Whether the system of the set tells the program of new connections.
    pub open spec fn announces_connections(self) -> bool {
        self is ClientConnectionEstablish || self is ServerAcceptNewConnections
    }

    /// Whether the system of the set tells the program of connections that ended.
    pub open spec fn removes_connections(self) -> bool {
        self is ClientConnectionRemove || self is ServerRemoveConnections
    }
}

/// In every frame connections come before the main part and go after it: what the
/// program is told of has not ended in the same frame before its main part ran.
pub proof fn law_connections_come_first_and_go_last(coming: SystemSets, going: SystemSets)
    requires
        coming.announces_connections(),
        going.removes_connections(),
    ensures
        coming.spec_schedule().place() is Some,
        going.spec_schedule().place() is Some,
        coming.spec_schedule().place()->Some_0 < Schedule::Update.place()->Some_0,
        Schedule::Update.place()->Some_0 < going.spec_schedule().place()->Some_0,
{
}

/// Every system has its time, and each time its systems: the warning comes once at the
/// start, the limit is taken over in the main part of a frame, what comes from outside
/// is taken in before it, and what ends, and the packets of clients, are handled after
/// it.
pub proof fn law_every_system_has_its_time(set: SystemSets)
    ensures
        set.spec_schedule() is Startup <==> set is MaxPacketSizeWarning,
        set.spec_schedule() is Update <==> set is SetMaxPacketSize,
        set.spec_schedule() is PreUpdate <==> {
            ||| set is ClientConnectionRequest
            ||| set is ClientConnectionEstablish
            ||| set is ServerAcceptNewConnections
            ||| set is ServerAcceptNewPackets
        },
        set.spec_schedule() is PostUpdate <==> {
            ||| set is ClientConnectionRemove
            ||| set is ClientPacketReceive
            ||| set is ServerRemoveConnections
            ||| set is ServerConnectionAdd
        },
{
}

} // verus!
