//! The whole way from a client's packets to the display.

use crate::event_loop::{
    LoopAction, LoopInput, commands_sent, events_received, handle_each, law_display_follows_events,
    loop_run, possible_loop_run,
};
use crate::handler::{clicks_asked, clicks_made, distance_asked, distance_warped};
use crate::stream::{
    Phase, StreamInput, StreamMonitor, all_decode, delivered, law_packets_are_delivered,
    packet_events, packets, possible_run, progress, stream_run,
};
use vstd::prelude::*;

verus! {

/// What a client does to its pointer happens to the pointer of the display: whatever else happens on
/// its connection, and however its events come to be handled, then whenever all of them have been
/// taken and the display has nothing left to do, the pointer has moved by the sum of the motions that
/// the packets of the client stand for, and each click has happened at the position that the motions
/// before it add up to. As long as the connection is open, this includes every packet so far.
pub proof fn law_pointer_is_controlled(
    monitor: StreamMonitor,
    inputs: Seq<StreamInput>,
    history: Seq<LoopInput>,
)
    requires
        monitor.phase == Phase::Handshaking,
        possible_run(monitor, inputs),
        possible_loop_run(history),
        !history.contains(LoopInput::SendFailed),
        events_received(history) == delivered(inputs),
        history.len() > 0,
        ({
            let last = loop_run(history).1.last();
            last == LoopAction::Receive || last == LoopAction::Finish
        }),
    ensures
        ({
            let commands = commands_sent(loop_run(history).1);
            let tasks = handle_each(packet_events(packets(inputs)));
            &&& distance_warped(commands) == distance_asked(tasks)
            &&& clicks_made(commands) == clicks_asked(tasks)
        }),
        progress(stream_run(monitor, inputs).0.phase) < 2 ==> all_decode(
            packets(inputs),
            packet_events(packets(inputs)),
        ),
{
    law_packets_are_delivered(monitor, inputs);
    law_display_follows_events(history);
}

} // verus!
