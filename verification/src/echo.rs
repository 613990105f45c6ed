//! The decisions of a WebSocket echo connection: after each read, whether to
//! send the message back, skip it, or end the connection.

use vstd::prelude::*;

verus! {

/// The kind of a WebSocket message that was read.
#[derive(Debug, Clone, Copy, PartialEq, Eq, Structural)]
pub enum FrameKind {
    Text,
    Binary,
    Ping,
    Pong,
    Close,
    Frame,
}

/// What one read of the connection gave.
#[derive(Debug, Clone, Copy, PartialEq, Eq, Structural)]
pub enum EchoEvent {
    /// A message of this kind arrived.
    Received(FrameKind),
    /// Reading failed.
    ReadError,
    /// The peer closed the stream.
    StreamEnd,
}

/// What the connection does next.
#[derive(Debug, Clone, Copy, PartialEq, Eq, Structural)]
pub enum EchoStep {
    /// Send the message back and read again.
    Echo,
    /// Drop the message and read again.
    Skip,
    /// End the connection.
    Stop,
}

/// Text and binary messages are echoed; a close message, a read error and
/// the end of the stream end the connection; other messages are dropped.
pub open spec fn echo_decision(event: EchoEvent) -> EchoStep {
    match event {
        EchoEvent::Received(FrameKind::Text) | EchoEvent::Received(FrameKind::Binary) => EchoStep::Echo,
        EchoEvent::Received(FrameKind::Close) | EchoEvent::ReadError | EchoEvent::StreamEnd => EchoStep::Stop,
        EchoEvent::Received(_) => EchoStep::Skip,
    }
}

/// The step after one read.
pub fn echo_step(event: EchoEvent) -> (s: EchoStep)
    ensures
        s == echo_decision(event),
        (s == EchoStep::Echo) <==> (event == EchoEvent::Received(FrameKind::Text)
            || event == EchoEvent::Received(FrameKind::Binary)),
        (s == EchoStep::Stop) <==> (event == EchoEvent::Received(FrameKind::Close)
            || event == EchoEvent::ReadError || event == EchoEvent::StreamEnd),
{
    match event {
        EchoEvent::Received(kind) => match kind {
            FrameKind::Close => EchoStep::Stop,
            FrameKind::Text => EchoStep::Echo,
            FrameKind::Binary => EchoStep::Echo,
            _ => EchoStep::Skip,
        },
        EchoEvent::ReadError => EchoStep::Stop,
        EchoEvent::StreamEnd => EchoStep::Stop,
    }
}

/// The intended relation over a whole connection driven by `echo_step`: the
/// messages sent back are the text and binary messages read before the first
/// stopping event, in order.
pub open spec fn echoed(events: Seq<EchoEvent>) -> Seq<FrameKind>
    decreases events.len(),
{
    if events.len() == 0 {
        seq![]
    } else {
        match echo_decision(events[0]) {
            EchoStep::Stop => seq![],
            EchoStep::Skip => echoed(events.drop_first()),
            EchoStep::Echo => seq![events[0]->Received_0] + echoed(events.drop_first()),
        }
    }
}

/// Nothing read after a stopping event is sent back: once the events hold a
/// close message, a read error or the end of the stream, more events change
/// nothing.
pub proof fn lemma_stop_ends_echo(events: Seq<EchoEvent>, more: Seq<EchoEvent>, i: int)
    requires
        0 <= i < events.len(),
        events[i] == EchoEvent::Received(FrameKind::Close) || events[i] == EchoEvent::ReadError
            || events[i] == EchoEvent::StreamEnd,
    ensures
        echoed(events + more) == echoed(events),
    decreases events.len(),
{
    let all = events + more;
    assert(all[0] == events[0]);
    if i > 0 {
        assert(all.drop_first() =~= events.drop_first() + more);
        lemma_stop_ends_echo(events.drop_first(), more, i - 1);
    }
}

/// Every text or binary message read before any stopping event is sent
/// back, in order: with no stopping event, the messages sent back are the
/// data messages read, one for one, and never more messages than were read.
pub proof fn lemma_echo_keeps_data(events: Seq<EchoEvent>, e: EchoEvent)
    ensures
        echoed(events).len() <= events.len(),
        (e == EchoEvent::Received(FrameKind::Text) || e == EchoEvent::Received(FrameKind::Binary))
            ==> echoed(seq![e] + events) == seq![e->Received_0] + echoed(events),
        (e == EchoEvent::Received(FrameKind::Ping) || e == EchoEvent::Received(FrameKind::Pong)
            || e == EchoEvent::Received(FrameKind::Frame)) ==> echoed(seq![e] + events) == echoed(events),
    decreases events.len(),
{
    let all = seq![e] + events;
    assert(all.drop_first() =~= events);
    if events.len() > 0 {
        lemma_echo_keeps_data(events.drop_first(), e);
    }
}

/// Every message sent back is a text or binary message.
pub proof fn lemma_echoes_only_data(events: Seq<EchoEvent>)
    ensures
        forall|i: int| 0 <= i < echoed(events).len() ==>
            (#[trigger] echoed(events)[i] == FrameKind::Text || echoed(events)[i] == FrameKind::Binary),
    decreases events.len(),
{
    if events.len() > 0 {
        lemma_echoes_only_data(events.drop_first());
    }
}

} // verus!
