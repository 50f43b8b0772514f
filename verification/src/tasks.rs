//! What the tasks that serve a connection do: one reads packets from the stream, the
//! other writes packets to it.
use crate::connection::{DisconnectTask, TaskStates};
use crate::protocol::ReceiveError;
use vstd::prelude::*;

verus! {

// ---------------------------------------------------------------------------
// Reading.

/// What the task that reads from a connection waits for.
pub enum ReaderEvent<Packet, Io, SerializerError, LengthError> {
    /// A packet was received, or could not be.
    Received(Result<Packet, ReceiveError<Io, SerializerError, LengthError>>),
    /// The connection was asked to close.
    DisconnectRequested,
}

/// What the task that reads from a connection tells the program.
pub ghost enum Report<Packet, Io, SerializerError, LengthError> {
    /// A packet came.
    Packet(Packet),
    /// The connection has ended.
    End(ReceiveError<Io, SerializerError, LengthError>),
}

/// What is told after `event`.
pub open spec fn report<Packet, Io, SerializerError, LengthError>(
    event: ReaderEvent<Packet, Io, SerializerError, LengthError>,
) -> Report<Packet, Io, SerializerError, LengthError> {
    match event {
        ReaderEvent::Received(Ok(packet)) => Report::Packet(packet),
        ReaderEvent::Received(Err(error)) => Report::End(error),
        ReaderEvent::DisconnectRequested => Report::End(ReceiveError::IntentionalDisconnection),
    }
}

/// The requests to close after `event` came to the connection with the handle `task`:
/// a connection that ended is closed.
pub open spec fn states_after<Packet, Io, SerializerError, LengthError>(
    states: TaskStates,
    task: DisconnectTask,
    event: ReaderEvent<Packet, Io, SerializerError, LengthError>,
) -> TaskStates {
    match report(event) {
        Report::Packet(_) => states,
        Report::End(_) => states.after_disconnect(task),
    }
}

/// What is told after `events`, as long as the program listens: the task stops when
/// the connection has ended.
pub open spec fn reports<Packet, Io, SerializerError, LengthError>(
    events: Seq<ReaderEvent<Packet, Io, SerializerError, LengthError>>,
) -> Seq<Report<Packet, Io, SerializerError, LengthError>>
    decreases events.len(),
{
    if events.len() == 0 {
        Seq::empty()
    } else if report(events[0]) is End {
        seq![report(events[0])]
    } else {
        seq![report(events[0])] + reports(events.skip(1))
    }
}

/// The program is told of every packet that comes before the connection ends, in
/// order, then once of the end, and of nothing after it.
pub proof fn law_packets_then_one_end<Packet, Io, SerializerError, LengthError>(
    events: Seq<ReaderEvent<Packet, Io, SerializerError, LengthError>>,
    end: int,
)
    requires
        0 <= end < events.len(),
        report(events[end]) is End,
        forall|i: int| 0 <= i < end ==> report(#[trigger] events[i]) is Packet,
    ensures
        reports(events).len() == end + 1,
        forall|i: int| 0 <= i <= end ==> #[trigger] reports(events)[i] == report(events[i]),
    decreases events.len(),
{
    if end > 0 {
        assert(report(events[0]) is Packet);
        assert forall|i: int| 0 <= i < end - 1 implies report(
            #[trigger] events.skip(1)[i],
        ) is Packet by {
            assert(events.skip(1)[i] == events[i + 1]);
        }
        law_packets_then_one_end(events.skip(1), end - 1);
        assert forall|i: int| 0 <= i <= end implies #[trigger] reports(events)[i] == report(
            events[i],
        ) by {
            if i > 0 {
                assert(reports(events)[i] == reports(events.skip(1))[i - 1]);
                assert(events.skip(1)[i - 1] == events[i]);
            }
        }
    }
}

// ---------------------------------------------------------------------------
// Writing.

/// What the task that writes to a connection is told.
pub enum WriterEvent<Packet> {
    /// The program wants to send a packet.
    Packet(Packet),
    /// The program will not send another packet.
    Closed,
    /// The packet was written.
    Written,
    /// The packet could not be written.
    Failed,
}

/// What the task that writes to a connection does.
#[derive(Debug, PartialEq, Eq)]
pub enum WriterAction<Packet> {
    /// Wait for the next packet.
    Wait,
    /// Write a packet to the stream.
    Write(Packet),
    /// End.
    Stop,
}

/// What the task does after `event`.
pub open spec fn spec_writer_step<Packet>(event: WriterEvent<Packet>) -> WriterAction<Packet> {
    match event {
        WriterEvent::Packet(packet) => WriterAction::Write(packet),
        WriterEvent::Closed => WriterAction::Stop,
        WriterEvent::Written => WriterAction::Wait,
        WriterEvent::Failed => WriterAction::Stop,
    }
}

/// What the task that writes to a connection does after `event`: it writes packet
/// after packet, until one cannot be written or no further one will come.
pub fn writer_step<Packet>(event: WriterEvent<Packet>) -> (action: WriterAction<Packet>)
    ensures
        action == spec_writer_step(event),
{
    match event {
        WriterEvent::Packet(packet) => WriterAction::Write(packet),
        WriterEvent::Closed => WriterAction::Stop,
        WriterEvent::Written => WriterAction::Wait,
        WriterEvent::Failed => WriterAction::Stop,
    }
}

/// The packets that are handed to the stream where the program sends `packets`, and
/// writing the i-th packet succeeds where `succeeds` says so: what the task does,
/// followed from event to event.
pub open spec fn handed_over<Packet>(packets: Seq<Packet>, succeeds: Seq<bool>) -> Seq<Packet>
    recommends
        packets.len() == succeeds.len(),
    decreases packets.len(),
{
    if packets.len() == 0 {
        Seq::empty()
    } else {
        match spec_writer_step(WriterEvent::Packet(packets[0])) {
            WriterAction::Write(packet) => {
                let event = if succeeds[0] {
                    WriterEvent::<Packet>::Written
                } else {
                    WriterEvent::<Packet>::Failed
                };
                if spec_writer_step(event) == WriterAction::<Packet>::Wait {
                    seq![packet] + handed_over(packets.skip(1), succeeds.skip(1))
                } else {
                    seq![packet]
                }
            },
            _ => Seq::empty(),
        }
    }
}

/// Packets are handed to the stream in the order in which the program sent them, all
/// of them up to the first one that cannot be written, and none after it.
pub proof fn law_packets_are_written_in_order<Packet>(
    packets: Seq<Packet>,
    succeeds: Seq<bool>,
    failed: int,
)
    requires
        packets.len() == succeeds.len(),
        0 <= failed <= packets.len(),
        forall|i: int| 0 <= i < failed ==> #[trigger] succeeds[i],
        failed < packets.len() ==> !succeeds[failed],
    ensures
        failed == packets.len() ==> handed_over(packets, succeeds) == packets,
        failed < packets.len() ==> handed_over(packets, succeeds) == packets.take(failed + 1),
    decreases packets.len(),
{
    if packets.len() > 0 {
        if failed > 0 {
            assert(succeeds[0]);
            assert forall|i: int| 0 <= i < failed - 1 implies #[trigger] succeeds.skip(1)[i] by {
                assert(succeeds[i + 1]);
            }
            law_packets_are_written_in_order(packets.skip(1), succeeds.skip(1), failed - 1);
            assert(seq![packets[0]] + packets.skip(1) =~= packets);
            if failed < packets.len() {
                assert(seq![packets[0]] + packets.skip(1).take(failed) =~= packets.take(
                    failed + 1,
                ));
            }
        } else {
            assert(seq![packets[0]] =~= packets.take(1));
        }
    }
}

/// A packet is reported as it came, and a connection that ended with an error is
/// reported with that same error, whichever it is. A connection is reported as closed on
/// purpose only if it was asked to close, or if that was the error received. No two
/// events that differ are reported alike, but for these two.
pub proof fn law_reports_say_what_happened<Packet, Io, SerializerError, LengthError>(
    event: ReaderEvent<Packet, Io, SerializerError, LengthError>,
    packet: Packet,
    error: ReceiveError<Io, SerializerError, LengthError>,
)
    ensures
        report(event) == Report::<Packet, Io, SerializerError, LengthError>::Packet(packet)
            <==> event == ReaderEvent::<Packet, Io, SerializerError, LengthError>::Received(
            Ok(packet),
        ),
        report(event) == Report::<Packet, Io, SerializerError, LengthError>::End(error) <==> {
            ||| event == ReaderEvent::<Packet, Io, SerializerError, LengthError>::Received(
                Err(error),
            )
            ||| event is DisconnectRequested && error is IntentionalDisconnection
        },
{
}

/// A connection is closed by its end and by nothing else: packets leave all requests to
/// close as they are, and the end of a connection asks that connection to close and no
/// other one.
pub proof fn law_ended_connections_are_closed<Packet, Io, SerializerError, LengthError>(
    states: TaskStates,
    task: DisconnectTask,
    other: DisconnectTask,
    event: ReaderEvent<Packet, Io, SerializerError, LengthError>,
)
    requires
        other != task,
    ensures
        event matches ReaderEvent::Received(Ok(_)) ==> states_after(states, task, event) == states,
        !(event matches ReaderEvent::Received(Ok(_))) ==> states_after(
            states,
            task,
            event,
        ).requested(task),
        states_after(states, task, event).requested(other) == states.requested(other),
        states_after(states, task, event).awaited(other) == states.awaited(other),
        states_after(states, task, event).created == states.created,
{
    states.lemma_disconnecting_one(task, other);
}

/// Every packet that the program sends is written as it is; the task ends when no
/// further packet will come or one could not be written, and waits for the next packet
/// when one was written. It never writes anything else.
pub proof fn law_writer_writes_packets_as_they_are<Packet>(
    event: WriterEvent<Packet>,
    packet: Packet,
)
    ensures
        spec_writer_step(event) == WriterAction::Write(packet) <==> event == WriterEvent::Packet(
            packet,
        ),
        spec_writer_step(event) is Stop <==> event is Closed || event is Failed,
        spec_writer_step(event) is Wait <==> event is Written,
{
}

} // verus!
