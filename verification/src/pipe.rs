//! The write side of a stream and its writer task together: what has been written, what is under
//! way, and what was sent.
use vstd::prelude::*;

use crate::pump::{pump_next, pump_start, PumpCommand, PumpEvent, PumpState};
use crate::write::{
    chunk_of, write_next, write_start, write_well_formed, WriteActionView, WriteCall,
    WriteEventView, WritePhase, WriteState, WRITE_CHUNK, WRITE_QUEUE,
};

verus! {

/// A command in the queue, with its data.
pub enum Queued {
    Data(Seq<u8>),
    Flush,
    Finish,
}

/// What the task sees of a command.
pub open spec fn command_of(item: Queued) -> PumpCommand {
    match item {
        Queued::Data(_) => PumpCommand::Data,
        Queued::Flush => PumpCommand::Flush,
        Queued::Finish => PumpCommand::Finish,
    }
}

/// The bytes of a command.
pub open spec fn bytes_of(item: Queued) -> Seq<u8> {
    match item {
        Queued::Data(bytes) => bytes,
        _ => seq![],
    }
}

/// The bytes of the commands in a queue, the next first.
pub open spec fn queued_bytes(queue: Seq<Queued>) -> Seq<u8>
    decreases queue.len(),
{
    if queue.len() == 0 {
        seq![]
    } else {
        bytes_of(queue[0]) + queued_bytes(queue.drop_first())
    }
}

/// A write side, its task, and what lies between them.
pub struct Pipe {
    pub side: WriteState,
    pub pump: PumpState,
    /// The bytes of the last write that the user called, until another call follows.
    pub calling: Seq<u8>,
    /// The commands that the task has not taken yet.
    pub queue: Seq<Queued>,
    /// The data that the task is sending.
    pub sending: Seq<u8>,
    /// Whether the task has acknowledged the last flush or finish command.
    pub acknowledged: bool,
    /// Every byte that the write side has reported as written, in order.
    pub written: Seq<u8>,
    /// Every byte that the task has sent, in order.
    pub sent: Seq<u8>,
}

/// What can happen to the two.
pub enum PipeEvent {
    /// The user calls the write side: the event is a write, a flush or a shutdown.
    Call(WriteEventView),
    /// The queue grants room for the write in progress, or for a flush or finish command. `bytes`
    /// are those of the write in progress, here as in the next three.
    Room { bytes: Seq<u8> },
    /// The queue is found closed.
    NoRoom { bytes: Seq<u8> },
    /// The acknowledgment reaches the write side.
    Heard { bytes: Seq<u8>, stopped: bool },
    /// The acknowledgment will never come.
    Lost { bytes: Seq<u8>, stopped: bool },
    /// The task takes the next command.
    Take,
    /// The task's work ends, the queue or the connection closes.
    Task(PumpEvent),
}

/// Whether `event` can happen now.
pub open spec fn pipe_can(pipe: Pipe, event: PipeEvent) -> bool {
    match event {
        PipeEvent::Call(call) => call is Write || call is Flush || call is Shutdown,
        PipeEvent::Room { bytes } => bytes == pipe.calling && pipe.queue.len() < WRITE_QUEUE,
        PipeEvent::NoRoom { bytes } => bytes == pipe.calling && pipe.pump.stage is Ended,
        PipeEvent::Heard { bytes, .. } => bytes == pipe.calling && pipe.acknowledged,
        PipeEvent::Lost { bytes, .. } => bytes == pipe.calling && pipe.pump.stage is Ended
            && !pipe.acknowledged,
        PipeEvent::Take => pipe.pump.stage is Receive && pipe.queue.len() > 0,
        PipeEvent::Task(work) => work !is Command,
    }
}

/// What the write side learns from `event`, if it concerns it.
pub open spec fn side_event(event: PipeEvent) -> Option<WriteEventView> {
    match event {
        PipeEvent::Call(call) => Some(call),
        PipeEvent::Room { bytes } => Some(WriteEventView::Reserved { granted: true, bytes }),
        PipeEvent::NoRoom { bytes } => Some(WriteEventView::Reserved { granted: false, bytes }),
        PipeEvent::Heard { bytes, stopped } => Some(
            WriteEventView::Acknowledged { received: true, bytes, stopped },
        ),
        PipeEvent::Lost { bytes, stopped } => Some(
            WriteEventView::Acknowledged { received: false, bytes, stopped },
        ),
        _ => None,
    }
}

/// The bytes of the write in progress once the write side learns `event`.
pub open spec fn calling_after(pipe: Pipe, event: WriteEventView) -> Seq<u8> {
    match event {
        WriteEventView::Write { bytes, .. } => bytes,
        WriteEventView::Flush { .. } => seq![],
        WriteEventView::Shutdown { .. } => seq![],
        _ => pipe.calling,
    }
}

/// What follows when the write side learns `event`.
pub open spec fn pipe_side(pipe: Pipe, event: WriteEventView) -> Pipe {
    let (side, action) = write_next(pipe.side, event);
    let pipe = Pipe { calling: calling_after(pipe, event), ..pipe };
    match action {
        WriteActionView::SendData(chunk) => Pipe {
            side,
            queue: pipe.queue.push(Queued::Data(chunk)),
            written: pipe.written + chunk,
            ..pipe
        },
        WriteActionView::SendFlush => Pipe {
            side,
            queue: pipe.queue.push(Queued::Flush),
            acknowledged: false,
            ..pipe
        },
        WriteActionView::SendFinish => Pipe {
            side,
            queue: pipe.queue.push(Queued::Finish),
            acknowledged: false,
            ..pipe
        },
        _ => Pipe { side, ..pipe },
    }
}

/// What follows when the task takes the next command.
pub open spec fn pipe_take(pipe: Pipe) -> Pipe {
    let item = pipe.queue[0];
    let (pump, acknowledge) = pump_next(pipe.pump, PumpEvent::Command(command_of(item)));
    Pipe {
        pump,
        queue: pipe.queue.drop_first(),
        sending: bytes_of(item),
        acknowledged: pipe.acknowledged || acknowledge,
        ..pipe
    }
}

/// What follows when the task's work ends.
pub open spec fn pipe_task(pipe: Pipe, event: PumpEvent) -> Pipe {
    let (pump, acknowledge) = pump_next(pipe.pump, event);
    let done = pipe.pump.stage is Send && pump.stage is Receive;
    Pipe {
        pump,
        sending: if done {
            seq![]
        } else {
            pipe.sending
        },
        sent: if done {
            pipe.sent + pipe.sending
        } else {
            pipe.sent
        },
        acknowledged: pipe.acknowledged || acknowledge,
        ..pipe
    }
}

/// What follows `event`. One that cannot happen changes nothing.
pub open spec fn pipe_next(pipe: Pipe, event: PipeEvent) -> Pipe {
    if !pipe_can(pipe, event) {
        pipe
    } else {
        match event {
            PipeEvent::Take => pipe_take(pipe),
            PipeEvent::Task(work) => pipe_task(pipe, work),
            _ => pipe_side(pipe, side_event(event)->Some_0),
        }
    }
}

/// A fresh stream.
pub open spec fn pipe_start() -> Pipe {
    Pipe {
        side: write_start(),
        pump: pump_start(),
        calling: seq![],
        queue: seq![],
        sending: seq![],
        acknowledged: false,
        written: seq![],
        sent: seq![],
    }
}

/// What a fresh stream becomes through `events`.
pub open spec fn pipe_run(events: Seq<PipeEvent>) -> Pipe
    decreases events.len(),
{
    if events.len() == 0 {
        pipe_start()
    } else {
        pipe_next(pipe_run(events.drop_last()), events.last())
    }
}

/// What holds of a stream at all times.
spec fn pipe_well_formed(pipe: Pipe) -> bool {
    &&& write_well_formed(pipe.side)
    &&& pipe.side.phase == WritePhase::Reserving(WriteCall::Write) ==> pipe.calling.len() > 0
    &&& pipe.queue.len() <= WRITE_QUEUE
    &&& forall|i: int| 0 <= i < pipe.queue.len() ==> bytes_of(#[trigger] pipe.queue[i]).len() <= WRITE_CHUNK
    &&& pipe.sending.len() <= WRITE_CHUNK
    &&& pipe.sent.is_prefix_of(pipe.written)
    // As long as the task runs, what was written is sent, under way, or queued.
    &&& pipe.pump.stage !is Ended ==> pipe.written == pipe.sent + pipe.sending + queued_bytes(
        pipe.queue,
    )
    &&& pipe.pump.stage is Receive || pipe.pump.stage is Finish ==> pipe.sending.len() == 0
    // An outstanding command is the one in the queue, or the one being carried out.
    &&& pipe.side.awaiting && !pipe.acknowledged && pipe.pump.stage !is Ended
        && pipe.pump.stage !is Finish ==> pipe.queue.len() == 1 && pipe.queue[0] !is Data
    &&& pipe.pump.stage is Finish ==> pipe.side.awaiting && pipe.side.finishing
        && !pipe.acknowledged && pipe.queue.len() == 0
    &&& pipe.pump.stage !is Ended && pipe.queue.len() > 0 && pipe.queue[0] !is Data
        ==> pipe.side.awaiting && !pipe.acknowledged
    &&& pipe.pump.stage !is Ended && pipe.queue.len() > 0 && pipe.queue[0] is Finish
        ==> pipe.side.finishing
    // Nothing is under way once an acknowledgment is there to be heard.
    &&& pipe.side.awaiting && pipe.acknowledged ==> pipe.sent == pipe.written && pipe.queue.len()
        == 0
    &&& pipe.side.finished ==> pipe.sent == pipe.written
}

proof fn lemma_pipe_side(pipe: Pipe, event: PipeEvent)
    requires
        pipe_well_formed(pipe),
        pipe_can(pipe, event),
        side_event(event) is Some,
    ensures
        pipe_well_formed(pipe_side(pipe, side_event(event)->Some_0)),
{
    let learned = side_event(event)->Some_0;
    let after = pipe_side(pipe, learned);
    let (side, action) = write_next(pipe.side, learned);
    match action {
        WriteActionView::SendData(chunk) => {
            assert(pipe.queue.len() == 0);
            assert(after.queue =~= seq![Queued::Data(chunk)]);
            assert(after.queue.drop_first() =~= seq![]);
            assert(queued_bytes(after.queue) =~= chunk) by {
                reveal_with_fuel(queued_bytes, 2);
            }
            assert(after.written =~= pipe.written + chunk);
            if pipe.pump.stage !is Ended {
                assert(queued_bytes(pipe.queue) =~= seq![]);
                assert(after.written =~= after.sent + after.sending + queued_bytes(after.queue));
            }
        },
        WriteActionView::SendFlush => {
            assert(pipe.queue.len() == 0);
            assert(after.queue =~= seq![Queued::Flush]);
            assert(after.queue.drop_first() =~= pipe.queue);
            assert(queued_bytes(after.queue) =~= queued_bytes(pipe.queue)) by {
                reveal_with_fuel(queued_bytes, 2);
            }
        },
        WriteActionView::SendFinish => {
            assert(pipe.queue.len() == 0);
            assert(after.queue =~= seq![Queued::Finish]);
            assert(after.queue.drop_first() =~= pipe.queue);
            assert(queued_bytes(after.queue) =~= queued_bytes(pipe.queue)) by {
                reveal_with_fuel(queued_bytes, 2);
            }
        },
        _ => {},
    }
}

proof fn lemma_pipe_take(pipe: Pipe)
    requires
        pipe_well_formed(pipe),
        pipe_can(pipe, PipeEvent::Take),
    ensures
        pipe_well_formed(pipe_take(pipe)),
{
    let after = pipe_take(pipe);
    assert(after.queue.len() == 0);
    assert(queued_bytes(after.queue) =~= seq![]);
    assert(pipe.written =~= pipe.sent + bytes_of(pipe.queue[0])) by {
        reveal_with_fuel(queued_bytes, 2);
        assert(pipe.queue.drop_first() =~= seq![]);
    }
    assert(after.written =~= after.sent + after.sending + queued_bytes(after.queue));
    assert(pipe.queue[0] !is Data ==> after.sent =~= after.written);
}

proof fn lemma_pipe_task(pipe: Pipe, work: PumpEvent)
    requires
        pipe_well_formed(pipe),
        pipe_can(pipe, PipeEvent::Task(work)),
    ensures
        pipe_well_formed(pipe_task(pipe, work)),
{
    let after = pipe_task(pipe, work);
    if pipe.pump.stage is Send && after.pump.stage is Receive {
        assert(after.written =~= after.sent + after.sending + queued_bytes(after.queue));
        assert(after.sent.is_prefix_of(after.written));
        if pipe.side.finished {
            assert(pipe.sending.len() == 0);
            assert(after.sent =~= after.written);
        }
        if pipe.side.awaiting && pipe.acknowledged {
            assert(pipe.sending.len() == 0);
            assert(after.sent =~= after.written);
        }
    }
    if pipe.pump.stage is Finish {
        assert(queued_bytes(pipe.queue) =~= seq![]);
        assert(pipe.sent =~= pipe.written);
    }
}

proof fn lemma_pipe_run(events: Seq<PipeEvent>)
    ensures
        pipe_well_formed(pipe_run(events)),
    decreases events.len(),
{
    if events.len() == 0 {
        let start = pipe_start();
        assert(start.written =~= start.sent + start.sending + queued_bytes(start.queue));
    } else {
        let before = pipe_run(events.drop_last());
        let event = events.last();
        lemma_pipe_run(events.drop_last());
        if pipe_can(before, event) {
            match event {
                PipeEvent::Take => lemma_pipe_take(before),
                PipeEvent::Task(work) => lemma_pipe_task(before, work),
                _ => lemma_pipe_side(before, event),
            }
        }
    }
}

/// What is sent is what was written: in the same order, with nothing lost in between, repeated or
/// made up. What is missing at the end is still under way, or was cut off with the task.
pub proof fn what_is_sent_was_written(events: Seq<PipeEvent>)
    ensures
        pipe_run(events).sent.is_prefix_of(pipe_run(events).written),
        pipe_run(events).pump.stage !is Ended ==> pipe_run(events).written == pipe_run(events).sent
            + pipe_run(events).sending + queued_bytes(pipe_run(events).queue),
{
    lemma_pipe_run(events);
}

/// A stream holds at most one queued chunk and one chunk under way, however much its user writes
/// and however little its peer reads.
pub proof fn what_is_under_way_is_bounded(events: Seq<PipeEvent>)
    ensures
        pipe_run(events).queue.len() <= WRITE_QUEUE,
        forall|i: int|
            0 <= i < pipe_run(events).queue.len() ==> bytes_of(
                #[trigger] pipe_run(events).queue[i],
            ).len() <= WRITE_CHUNK,
        pipe_run(events).sending.len() <= WRITE_CHUNK,
{
    lemma_pipe_run(events);
}

/// When a flush or a shutdown completes, everything that was written has been sent.
pub proof fn completion_means_everything_sent(events: Seq<PipeEvent>, event: PipeEvent)
    requires
        pipe_can(pipe_run(events), event),
        side_event(event) matches Some(learned) && write_next(pipe_run(events).side, learned).1 is Complete,
    ensures
        pipe_run(events).sent == pipe_run(events).written,
{
    lemma_pipe_run(events);
}

/// A data command carries the bytes that the write in progress began with: at least one, at most
/// a chunk, and nothing else.
pub proof fn data_comes_from_the_write_in_progress(events: Seq<PipeEvent>, event: PipeEvent)
    requires
        pipe_can(pipe_run(events), event),
        side_event(event) matches Some(learned) && write_next(pipe_run(events).side, learned).1 is SendData,
    ensures
        ({
            let before = pipe_run(events);
            let chunk = write_next(before.side, side_event(event)->Some_0).1->SendData_0;
            &&& chunk.is_prefix_of(before.calling)
            &&& 0 < chunk.len() <= WRITE_CHUNK
            &&& pipe_next(before, event).written == before.written + chunk
        }),
{
    lemma_pipe_run(events);
    assert(chunk_of(pipe_run(events).calling).is_prefix_of(pipe_run(events).calling));
}

} // verus!
