//! The write side of a tunnel stream.
use vstd::prelude::*;

use crate::error::{
    broken, broken_view, write_closed, write_closed_view, StreamError, StreamErrorKind,
    StreamErrorView,
};
use crate::outside::buffer_bytes;

verus! {

/// The most bytes that one write takes.
pub const WRITE_CHUNK: usize = 65536;

/// Commands that wait between a stream and its writer task: one, besides the one being carried
/// out.
pub const WRITE_QUEUE: usize = 1;

/// What the user asked of the write side.
#[derive(Clone, Copy, Debug, PartialEq, Eq, Structural)]
pub enum WriteCall {
    Write,
    Flush,
    Shutdown,
}

/// What a call in progress waits for.
#[derive(Clone, Copy, Debug, PartialEq, Eq, Structural)]
pub enum WritePhase {
    /// No call is in progress.
    Idle,
    /// Room in the command queue.
    Reserving(WriteCall),
    /// The acknowledgment of the last flush or finish command.
    Awaiting(WriteCall),
}

/// What happened on the write side. A new call gives up one that was left waiting. `bytes` are
/// the bytes of the write in progress; they do not matter to the other calls. `stopped` tells
/// whether the session was stopped.
pub enum WriteEvent<'a> {
    /// The user writes.
    Write { bytes: &'a [u8], stopped: bool },
    /// The user flushes.
    Flush { stopped: bool },
    /// The user closes the write side.
    Shutdown { stopped: bool },
    /// Room in the command queue was granted, or the queue is closed.
    Reserved { granted: bool, bytes: &'a [u8] },
    /// The acknowledgment came, or will never come.
    Acknowledged { received: bool, bytes: &'a [u8], stopped: bool },
}

/// The mathematical value of a [`WriteEvent`].
pub enum WriteEventView {
    Write { bytes: Seq<u8>, stopped: bool },
    Flush { stopped: bool },
    Shutdown { stopped: bool },
    Reserved { granted: bool, bytes: Seq<u8> },
    Acknowledged { received: bool, bytes: Seq<u8>, stopped: bool },
}

impl<'a> View for WriteEvent<'a> {
    type V = WriteEventView;

    open spec fn view(&self) -> WriteEventView {
        match *self {
            WriteEvent::Write { bytes, stopped } => WriteEventView::Write { bytes: bytes@, stopped },
            WriteEvent::Flush { stopped } => WriteEventView::Flush { stopped },
            WriteEvent::Shutdown { stopped } => WriteEventView::Shutdown { stopped },
            WriteEvent::Reserved { granted, bytes } => WriteEventView::Reserved {
                granted,
                bytes: bytes@,
            },
            WriteEvent::Acknowledged { received, bytes, stopped } => WriteEventView::Acknowledged {
                received,
                bytes: bytes@,
                stopped,
            },
        }
    }
}

/// What to do next for the call.
pub enum WriteAction {
    /// Wait for room in the command queue.
    Reserve,
    /// Wait for the acknowledgment of the command that was sent last.
    AwaitAcknowledgment,
    /// Send this data command into the reserved room. The write is done and took all these bytes.
    SendData(bytes::Bytes),
    /// Send a flush command into the reserved room, and wait for its acknowledgment.
    SendFlush,
    /// Send a finish command into the reserved room, and wait for its acknowledgment.
    SendFinish,
    /// The write is done and took no bytes, having none.
    WroteNothing,
    /// The flush or the shutdown is done.
    Complete,
    /// The call fails.
    Fail(StreamError),
    /// Nothing: the event answered no outstanding request.
    Ignore,
}

/// The mathematical value of a [`WriteAction`].
pub enum WriteActionView {
    Reserve,
    AwaitAcknowledgment,
    SendData(Seq<u8>),
    SendFlush,
    SendFinish,
    WroteNothing,
    Complete,
    Fail(StreamErrorView),
    Ignore,
}

impl View for WriteAction {
    type V = WriteActionView;

    open spec fn view(&self) -> WriteActionView {
        match *self {
            WriteAction::Reserve => WriteActionView::Reserve,
            WriteAction::AwaitAcknowledgment => WriteActionView::AwaitAcknowledgment,
            WriteAction::SendData(chunk) => WriteActionView::SendData(buffer_bytes(chunk)),
            WriteAction::SendFlush => WriteActionView::SendFlush,
            WriteAction::SendFinish => WriteActionView::SendFinish,
            WriteAction::WroteNothing => WriteActionView::WroteNothing,
            WriteAction::Complete => WriteActionView::Complete,
            WriteAction::Fail(error) => WriteActionView::Fail(error@),
            WriteAction::Ignore => WriteActionView::Ignore,
        }
    }
}

/// The state of the write side.
pub struct WriteState {
    /// Whether a flush or finish command is not acknowledged yet.
    pub awaiting: bool,
    /// Whether a finish command was sent.
    pub finishing: bool,
    /// Whether the finish command was acknowledged.
    pub finished: bool,
    /// What the call in progress waits for.
    pub phase: WritePhase,
}

/// What is waited for fits what was sent.
pub open spec fn write_well_formed(state: WriteState) -> bool {
    &&& state.finished ==> state.finishing && !state.awaiting
    &&& state.phase matches WritePhase::Reserving(call) ==> !state.awaiting && !state.finished && (
    call is Write ==> !state.finishing)
    &&& state.phase matches WritePhase::Awaiting(call) ==> state.awaiting && (call is Write
        ==> !state.finishing)
}

/// The write side of a fresh stream.
pub open spec fn write_start() -> WriteState {
    WriteState { awaiting: false, finishing: false, finished: false, phase: WritePhase::Idle }
}

/// How a write of `bytes` goes on when no acknowledgment is outstanding.
pub open spec fn write_on(state: WriteState, bytes: Seq<u8>, stopped: bool) -> (
    WriteState,
    WriteActionView,
) {
    let idle = WriteState { phase: WritePhase::Idle, ..state };
    if bytes.len() == 0 {
        (idle, WriteActionView::WroteNothing)
    } else if stopped {
        (idle, WriteActionView::Fail(broken_view()))
    } else {
        (
            WriteState { phase: WritePhase::Reserving(WriteCall::Write), ..state },
            WriteActionView::Reserve,
        )
    }
}

/// How a flush or a shutdown goes on.
pub open spec fn acknowledge_on(state: WriteState, call: WriteCall, stopped: bool) -> (
    WriteState,
    WriteActionView,
) {
    let idle = WriteState { phase: WritePhase::Idle, ..state };
    if stopped {
        (idle, WriteActionView::Fail(broken_view()))
    } else if state.finished {
        (idle, WriteActionView::Complete)
    } else if state.awaiting {
        (
            WriteState { phase: WritePhase::Awaiting(call), ..state },
            WriteActionView::AwaitAcknowledgment,
        )
    } else {
        (WriteState { phase: WritePhase::Reserving(call), ..state }, WriteActionView::Reserve)
    }
}

/// The part of `bytes` that one write takes.
pub open spec fn chunk_of(bytes: Seq<u8>) -> Seq<u8> {
    if bytes.len() <= WRITE_CHUNK {
        bytes
    } else {
        bytes.take(WRITE_CHUNK as int)
    }
}

/// The state and the action that follow `state` on `event`.
pub open spec fn write_next(state: WriteState, event: WriteEventView) -> (
    WriteState,
    WriteActionView,
) {
    let idle = WriteState { phase: WritePhase::Idle, ..state };
    match (event, state.phase) {
        (WriteEventView::Write { bytes, stopped }, _) => if state.finishing || state.finished {
            (idle, WriteActionView::Fail(write_closed_view()))
        } else if !state.awaiting {
            write_on(state, bytes, stopped)
        } else if stopped {
            (idle, WriteActionView::Fail(broken_view()))
        } else {
            (
                WriteState { phase: WritePhase::Awaiting(WriteCall::Write), ..state },
                WriteActionView::AwaitAcknowledgment,
            )
        },
        (WriteEventView::Flush { stopped }, _) => acknowledge_on(state, WriteCall::Flush, stopped),
        (WriteEventView::Shutdown { stopped }, _) => acknowledge_on(
            state,
            WriteCall::Shutdown,
            stopped,
        ),
        (WriteEventView::Reserved { granted, bytes }, WritePhase::Reserving(call)) => if !granted {
            (idle, WriteActionView::Fail(broken_view()))
        } else {
            match call {
                WriteCall::Write => (idle, WriteActionView::SendData(chunk_of(bytes))),
                WriteCall::Flush => (
                    WriteState { awaiting: true, phase: WritePhase::Awaiting(call), ..state },
                    WriteActionView::SendFlush,
                ),
                WriteCall::Shutdown => (
                    WriteState {
                        awaiting: true,
                        finishing: true,
                        phase: WritePhase::Awaiting(call),
                        ..state
                    },
                    WriteActionView::SendFinish,
                ),
            }
        },
        (
            WriteEventView::Acknowledged { received, bytes, stopped },
            WritePhase::Awaiting(call),
        ) => {
            let heard = WriteState { awaiting: false, ..idle };
            let done = WriteState { finished: state.finished || state.finishing, ..heard };
            if !received {
                (heard, WriteActionView::Fail(broken_view()))
            } else {
                match call {
                    WriteCall::Write => write_on(done, bytes, stopped),
                    WriteCall::Flush => (done, WriteActionView::Complete),
                    WriteCall::Shutdown => if done.finished {
                        (done, WriteActionView::Complete)
                    } else {
                        acknowledge_on(done, call, stopped)
                    },
                }
            }
        },
        _ => (state, WriteActionView::Ignore),
    }
}

/// The write side of a tunnel stream: data, flush and finish commands to a writer task.
pub struct WriteSide {
    awaiting: bool,
    finishing: bool,
    finished: bool,
    phase: WritePhase,
}

impl WriteSide {
    /// The state of the write side.
    pub closed spec fn state(&self) -> WriteState {
        WriteState {
            awaiting: self.awaiting,
            finishing: self.finishing,
            finished: self.finished,
            phase: self.phase,
        }
    }

    #[verifier::type_invariant]
    closed spec fn well_formed(&self) -> bool {
        write_well_formed(self.state())
    }

    /// The write side of a fresh stream.
    pub fn new() -> (side: Self)
        ensures
            side.state() == write_start(),
    {
        WriteSide { awaiting: false, finishing: false, finished: false, phase: WritePhase::Idle }
    }

    fn go_on_writing(&mut self, bytes: &[u8], stopped: bool) -> (action: WriteAction)
        requires
            old(self).state().phase is Idle,
            !old(self).state().awaiting,
            !old(self).state().finishing,
        ensures
            (final(self).state(), action@) == write_on(old(self).state(), bytes@, stopped),
    {
        proof {
            use_type_invariant(&*self);
        }
        if bytes.len() == 0 {
            WriteAction::WroteNothing
        } else if stopped {
            WriteAction::Fail(broken())
        } else {
            self.phase = WritePhase::Reserving(WriteCall::Write);
            WriteAction::Reserve
        }
    }

    fn go_on_acknowledging(&mut self, call: WriteCall, stopped: bool) -> (action: WriteAction)
        requires
            old(self).state().phase is Idle,
            call !is Write,
        ensures
            (final(self).state(), action@) == acknowledge_on(old(self).state(), call, stopped),
    {
        proof {
            use_type_invariant(&*self);
        }
        if stopped {
            WriteAction::Fail(broken())
        } else if self.finished {
            WriteAction::Complete
        } else if self.awaiting {
            self.phase = WritePhase::Awaiting(call);
            WriteAction::AwaitAcknowledgment
        } else {
            self.phase = WritePhase::Reserving(call);
            WriteAction::Reserve
        }
    }

    fn send(&mut self, call: WriteCall, bytes: &[u8]) -> (action: WriteAction)
        requires
            old(self).state().phase == WritePhase::Reserving(call),
        ensures
            (final(self).state(), action@) == write_next(
                old(self).state(),
                WriteEventView::Reserved { granted: true, bytes: bytes@ },
            ),
    {
        proof {
            use_type_invariant(&*self);
        }
        self.phase = WritePhase::Idle;
        match call {
            WriteCall::Write => {
                let chunk = if bytes.len() <= WRITE_CHUNK {
                    bytes
                } else {
                    vstd::slice::slice_subrange(bytes, 0, WRITE_CHUNK)
                };
                assert(chunk@ == chunk_of(bytes@));
                WriteAction::SendData(bytes::Bytes::copy_from_slice(chunk))
            },
            WriteCall::Flush => {
                self.awaiting = true;
                self.phase = WritePhase::Awaiting(call);
                WriteAction::SendFlush
            },
            WriteCall::Shutdown => {
                self.awaiting = true;
                self.finishing = true;
                self.phase = WritePhase::Awaiting(call);
                WriteAction::SendFinish
            },
        }
    }

    /// Takes in what happened and says what to do next.
    pub fn step(&mut self, event: WriteEvent<'_>) -> (action: WriteAction)
        ensures
            (final(self).state(), action@) == write_next(old(self).state(), event@),
            write_well_formed(final(self).state()),
    {
        proof {
            use_type_invariant(&*self);
        }
        let phase = self.phase;
        let action = match (event, phase) {
            (WriteEvent::Write { bytes, stopped }, _) => {
                self.phase = WritePhase::Idle;
                if self.finishing || self.finished {
                    WriteAction::Fail(write_closed())
                } else if !self.awaiting {
                    self.go_on_writing(bytes, stopped)
                } else if stopped {
                    WriteAction::Fail(broken())
                } else {
                    self.phase = WritePhase::Awaiting(WriteCall::Write);
                    WriteAction::AwaitAcknowledgment
                }
            },
            (WriteEvent::Flush { stopped }, _) => {
                self.phase = WritePhase::Idle;
                self.go_on_acknowledging(WriteCall::Flush, stopped)
            },
            (WriteEvent::Shutdown { stopped }, _) => {
                self.phase = WritePhase::Idle;
                self.go_on_acknowledging(WriteCall::Shutdown, stopped)
            },
            (WriteEvent::Reserved { granted, bytes }, WritePhase::Reserving(call)) => {
                if granted {
                    self.send(call, bytes)
                } else {
                    self.phase = WritePhase::Idle;
                    WriteAction::Fail(broken())
                }
            },
            (
                WriteEvent::Acknowledged { received, bytes, stopped },
                WritePhase::Awaiting(call),
            ) => {
                self.phase = WritePhase::Idle;
                self.awaiting = false;
                if !received {
                    WriteAction::Fail(broken())
                } else {
                    if self.finishing {
                        self.finished = true;
                    }
                    match call {
                        WriteCall::Write => self.go_on_writing(bytes, stopped),
                        WriteCall::Flush => WriteAction::Complete,
                        WriteCall::Shutdown => {
                            if self.finished {
                                WriteAction::Complete
                            } else {
                                self.go_on_acknowledging(call, stopped)
                            }
                        },
                    }
                }
            },
            _ => WriteAction::Ignore,
        };
        proof {
            use_type_invariant(&*self);
        }
        action
    }
}

/// The state after `events`, starting from `state`.
pub open spec fn write_run(state: WriteState, events: Seq<WriteEventView>) -> WriteState
    decreases events.len(),
{
    if events.len() == 0 {
        state
    } else {
        write_next(write_run(state, events.drop_last()), events.last()).0
    }
}

/// The action that answers `events[i]`.
pub open spec fn write_action(state: WriteState, events: Seq<WriteEventView>, i: int) -> WriteActionView {
    write_next(write_run(state, events.take(i)), events[i]).1
}

/// Whether every acknowledgment that was waited for came.
pub open spec fn all_acknowledged(events: Seq<WriteEventView>) -> bool {
    forall|i: int|
        0 <= i < events.len() ==> (#[trigger] events[i] matches WriteEventView::Acknowledged {
            received,
            ..
        } ==> received)
}

proof fn lemma_write_run_well_formed(state: WriteState, events: Seq<WriteEventView>)
    requires
        write_well_formed(state),
    ensures
        write_well_formed(write_run(state, events)),
    decreases events.len(),
{
    if events.len() > 0 {
        lemma_write_run_well_formed(state, events.drop_last());
    }
}

proof fn lemma_write_run_step(state: WriteState, events: Seq<WriteEventView>, i: int)
    requires
        0 <= i < events.len(),
    ensures
        write_run(state, events.take(i + 1)) == write_next(
            write_run(state, events.take(i)),
            events[i],
        ).0,
{
    assert(events.take(i + 1).drop_last() =~= events.take(i));
    assert(events.take(i + 1).last() == events[i]);
}

proof fn lemma_finishing_stays(state: WriteState, events: Seq<WriteEventView>, i: int, j: int)
    requires
        0 <= i <= j <= events.len(),
        write_run(state, events.take(i)).finishing,
    ensures
        write_run(state, events.take(j)).finishing,
    decreases j - i,
{
    if i < j {
        lemma_finishing_stays(state, events, i, j - 1);
        lemma_write_run_step(state, events, j - 1);
    }
}

/// No data follows a finish command: what is sent after it is no data, whatever the user calls.
pub proof fn no_data_after_finish(events: Seq<WriteEventView>, i: int, j: int)
    requires
        0 <= i < j < events.len(),
        write_action(write_start(), events, i) is SendFinish,
    ensures
        write_action(write_start(), events, j) !is SendData,
{
    let start = write_start();
    lemma_write_run_step(start, events, i);
    lemma_finishing_stays(start, events, i + 1, j);
    lemma_write_run_well_formed(start, events.take(j));
}

/// Once a finish command was sent, every write fails because the write side is closed.
pub proof fn writes_fail_after_finish(events: Seq<WriteEventView>, i: int, j: int)
    requires
        0 <= i < j < events.len(),
        write_action(write_start(), events, i) is SendFinish,
        events[j] is Write,
    ensures
        write_action(write_start(), events, j) == WriteActionView::Fail(write_closed_view()),
{
    let start = write_start();
    lemma_write_run_step(start, events, i);
    lemma_finishing_stays(start, events, i + 1, j);
}

/// A data command carries the first of the bytes that come with the granted room, at most a chunk
/// of them, and some unless there are none.
pub proof fn data_is_a_prefix_of_what_came_with_the_room(state: WriteState, granted: bool, bytes: Seq<u8>)
    requires
        write_next(state, WriteEventView::Reserved { granted, bytes }).1 is SendData,
    ensures
        ({
            let chunk = write_next(
                state,
                WriteEventView::Reserved { granted, bytes },
            ).1->SendData_0;
            &&& chunk.is_prefix_of(bytes)
            &&& chunk.len() <= WRITE_CHUNK
            &&& bytes.len() > 0 ==> chunk.len() > 0
        }),
{
    assert(chunk_of(bytes).is_prefix_of(bytes));
}

proof fn lemma_finish_is_pending(events: Seq<WriteEventView>)
    requires
        all_acknowledged(events),
    ensures
        write_run(write_start(), events).finishing ==> write_run(write_start(), events).awaiting
            || write_run(write_start(), events).finished,
    decreases events.len(),
{
    if events.len() > 0 {
        let earlier = events.drop_last();
        assert(all_acknowledged(earlier)) by {
            assert forall|i: int| 0 <= i < earlier.len() implies (
            #[trigger] earlier[i] matches WriteEventView::Acknowledged { received, .. }
                ==> received) by {
                assert(earlier[i] == events[i]);
            }
        }
        lemma_finish_is_pending(earlier);
        lemma_write_run_well_formed(write_start(), earlier);
        assert(events.last() == events[events.len() - 1]);
    }
}

/// As long as no acknowledgment fails to come, at most one finish command is sent.
pub proof fn finish_is_sent_once(events: Seq<WriteEventView>, i: int, j: int)
    requires
        0 <= i < j < events.len(),
        all_acknowledged(events),
        write_action(write_start(), events, i) is SendFinish,
    ensures
        write_action(write_start(), events, j) !is SendFinish,
{
    let start = write_start();
    lemma_write_run_step(start, events, i);
    lemma_finishing_stays(start, events, i + 1, j);
    lemma_write_run_well_formed(start, events.take(j));
    assert(all_acknowledged(events.take(j))) by {
        assert forall|k: int| 0 <= k < j implies (
        #[trigger] events.take(j)[k] matches WriteEventView::Acknowledged { received, .. }
            ==> received) by {
            assert(events.take(j)[k] == events[k]);
        }
    }
    lemma_finish_is_pending(events.take(j));
}

/// The write side counts as finished only after a finish command was sent and, later, an
/// acknowledgment came.
pub proof fn finished_means_acknowledged(events: Seq<WriteEventView>)
    ensures
        write_run(write_start(), events).finishing ==> exists|i: int|
            0 <= i < events.len() && #[trigger] write_action(write_start(), events, i) is SendFinish,
        write_run(write_start(), events).finished ==> exists|i: int, j: int|
            0 <= i < j < events.len() && #[trigger] write_action(write_start(), events, i) is SendFinish
                && (#[trigger] events[j] matches WriteEventView::Acknowledged { received, .. }
                && received),
    decreases events.len(),
{
    let start = write_start();
    if events.len() > 0 {
        let earlier = events.drop_last();
        finished_means_acknowledged(earlier);
        let before = write_run(start, earlier);
        let last: int = events.len() - 1;
        assert(events.take(last) =~= earlier);
        assert forall|i: int| 0 <= i < last implies write_action(start, earlier, i)
            == #[trigger] write_action(start, events, i) by {
            assert(events.take(i) =~= earlier.take(i));
        }
        lemma_write_run_well_formed(start, earlier);
        if before.finishing {
            let i = choose|i: int|
                0 <= i < earlier.len() && #[trigger] write_action(start, earlier, i) is SendFinish;
            assert(write_action(start, events, i) is SendFinish);
            if write_run(start, events).finished && !before.finished {
                assert(events[last] matches WriteEventView::Acknowledged { received, .. }
                    && received);
            }
        } else if write_run(start, events).finishing {
            assert(write_action(start, events, last) is SendFinish);
        }
        if before.finished {
            let (i, j) = choose|i: int, j: int|
                0 <= i < j < earlier.len() && #[trigger] write_action(start, earlier, i) is SendFinish
                    && (#[trigger] earlier[j] matches WriteEventView::Acknowledged { received, .. }
                    && received);
            assert(write_action(start, events, i) is SendFinish);
            assert(events[j] == earlier[j]);
        }
    }
}

/// A shutdown completes only when the write side is finished.
pub proof fn shutdown_completes_when_finished(state: WriteState, event: WriteEventView)
    requires
        write_next(state, event).1 is Complete,
        event is Shutdown || state.phase == WritePhase::Awaiting(WriteCall::Shutdown),
        event !is Flush,
    ensures
        write_next(state, event).0.finished,
{
}

/// A flush completes only when its command, or one sent before it, was acknowledged, or when the
/// write side is finished.
pub proof fn flush_completes_when_acknowledged(state: WriteState, event: WriteEventView)
    requires
        write_next(state, event).1 is Complete,
        event is Flush || state.phase == WritePhase::Awaiting(WriteCall::Flush),
        event !is Shutdown,
    ensures
        write_next(state, event).0.finished || (event matches WriteEventView::Acknowledged {
            received,
            ..
        } && received),
{
}

/// A shutdown that finds an unacknowledged flush waits for it and then sends the finish command.
pub proof fn shutdown_follows_a_pending_flush(state: WriteState, bytes: Seq<u8>)
    requires
        write_well_formed(state),
        state.awaiting,
        !state.finishing,
    ensures
        ({
            let waiting = write_next(state, WriteEventView::Shutdown { stopped: false });
            let heard = write_next(
                waiting.0,
                WriteEventView::Acknowledged { received: true, bytes, stopped: false },
            );
            let sent = write_next(heard.0, WriteEventView::Reserved { granted: true, bytes });
            &&& waiting.1 is AwaitAcknowledgment
            &&& heard.1 is Reserve
            &&& sent.1 is SendFinish
        }),
{
}

/// A stopped session fails every call but a write of nothing, and sends no command.
pub proof fn stopped_session_fails_writes(state: WriteState, bytes: Seq<u8>)
    requires
        bytes.len() > 0,
    ensures
        write_next(state, WriteEventView::Write { bytes, stopped: true }).1 is Fail,
        write_next(state, WriteEventView::Flush { stopped: true }).1 is Fail,
        write_next(state, WriteEventView::Shutdown { stopped: true }).1 is Fail,
{
}

/// A call fails on one of these occasions and on no other: a write after the write side was shut
/// down, which says so; or, as a reset, any call that needs a command or an acknowledgment when the
/// session was stopped, a closed queue, or an acknowledgment that will never come.
pub proof fn writes_fail_only_for_cause(
    state: WriteState,
    event: WriteEventView,
    error: StreamErrorView,
)
    requires
        write_well_formed(state),
    ensures
        write_next(state, event).1 == WriteActionView::Fail(error) <==> {
            ||| {
                &&& error.kind == StreamErrorKind::BrokenPipe
                &&& error.message == "HTTP/3 write side is closed"@
                &&& event is Write
                &&& state.finishing
            }
            ||| {
                &&& error.kind == StreamErrorKind::ConnectionReset
                &&& error.message == "HTTP/3 tunnel stream closed or reset"@
                &&& match event {
                    WriteEventView::Write { bytes, stopped } => stopped && !state.finishing && (
                    state.awaiting || bytes.len() > 0),
                    WriteEventView::Flush { stopped } => stopped,
                    WriteEventView::Shutdown { stopped } => stopped,
                    WriteEventView::Reserved { granted, .. } => !granted
                        && state.phase is Reserving,
                    WriteEventView::Acknowledged { received, bytes, stopped } => {
                        ||| state.phase is Awaiting && !received
                        ||| state.phase == WritePhase::Awaiting(WriteCall::Write) && stopped
                            && bytes.len() > 0
                        ||| state.phase == WritePhase::Awaiting(WriteCall::Shutdown) && stopped
                            && !state.finishing
                    },
                }
            }
        },
{
}

/// A call that finds an acknowledgment outstanding waits for it, and one that finds none waits for
/// room in the queue; unless it is a write of nothing, or the write side is finished and the call
/// is done. This holds however often a call is repeated.
pub proof fn calls_wait_for_what_is_outstanding(
    state: WriteState,
    call: WriteEventView,
    kind: WriteCall,
)
    requires
        write_well_formed(state),
        match call {
            WriteEventView::Write { stopped, .. } => kind == WriteCall::Write && !stopped
                && !state.finishing,
            WriteEventView::Flush { stopped } => kind == WriteCall::Flush && !stopped,
            WriteEventView::Shutdown { stopped } => kind == WriteCall::Shutdown && !stopped,
            _ => false,
        },
    ensures
        ({
            let (after, action) = write_next(state, call);
            let empty = call matches WriteEventView::Write { bytes, .. } && bytes.len() == 0;
            &&& action is AwaitAcknowledgment <==> state.awaiting
            &&& action is AwaitAcknowledgment ==> after.phase == WritePhase::Awaiting(kind)
            &&& action is WroteNothing <==> empty && !state.awaiting
            &&& action is Complete <==> state.finished
            &&& action is Reserve <==> !empty && !state.awaiting && !state.finished
            &&& action is Reserve ==> after.phase == WritePhase::Reserving(kind)
            &&& after.awaiting == state.awaiting
            &&& after.finishing == state.finishing
            &&& after.finished == state.finished
            &&& state.awaiting ==> write_next(after, call) == (after, action)
        }),
{
}

/// Granted room is used for the call that waited for it: for the bytes of a write, the first 65536
/// of them or all if there are fewer; for a flush command; or for a finish command, which closes the
/// write side. The last two are then waited for.
pub proof fn room_is_used_for_the_call(state: WriteState, bytes: Seq<u8>)
    requires
        write_well_formed(state),
    ensures
        ({
            let (after, action) = write_next(
                state,
                WriteEventView::Reserved { granted: true, bytes },
            );
            &&& state.phase == WritePhase::Reserving(WriteCall::Write) ==> {
                &&& action is SendData
                &&& action->SendData_0.is_prefix_of(bytes)
                &&& action->SendData_0.len() == 65536 || action->SendData_0 == bytes
                &&& action->SendData_0.len() <= 65536
                &&& after.phase is Idle
                &&& !after.awaiting
                &&& !after.finishing
            }
            &&& state.phase == WritePhase::Reserving(WriteCall::Flush) ==> {
                &&& action is SendFlush
                &&& after.awaiting
                &&& after.finishing == state.finishing
                &&& after.phase == WritePhase::Awaiting(WriteCall::Flush)
            }
            &&& state.phase == WritePhase::Reserving(WriteCall::Shutdown) ==> {
                &&& action is SendFinish
                &&& after.awaiting
                &&& after.finishing
                &&& after.phase == WritePhase::Awaiting(WriteCall::Shutdown)
            }
            &&& state.phase is Reserving ==> !after.finished
        }),
{
    assert(chunk_of(bytes).is_prefix_of(bytes));
}

/// An acknowledgment that comes completes a flush, completes a shutdown whose finish command it
/// answers, and lets a write or a shutdown that waited for something earlier go on. The write side
/// is finished by it exactly if a finish command was sent.
pub proof fn acknowledgment_lets_the_call_go_on(state: WriteState, bytes: Seq<u8>)
    requires
        write_well_formed(state),
        state.phase is Awaiting,
    ensures
        ({
            let (after, action) = write_next(
                state,
                WriteEventView::Acknowledged { received: true, bytes, stopped: false },
            );
            &&& !after.awaiting
            &&& after.finishing == state.finishing
            &&& after.finished <==> state.finishing
            &&& state.phase == WritePhase::Awaiting(WriteCall::Flush) ==> action is Complete
            &&& state.phase == WritePhase::Awaiting(WriteCall::Shutdown) ==> {
                &&& action is Complete <==> state.finishing
                &&& action is Reserve <==> !state.finishing
                &&& action is Reserve ==> after.phase == WritePhase::Reserving(WriteCall::Shutdown)
            }
            &&& state.phase == WritePhase::Awaiting(WriteCall::Write) ==> {
                &&& action is WroteNothing <==> bytes.len() == 0
                &&& action is Reserve <==> bytes.len() > 0
                &&& action is Reserve ==> after.phase == WritePhase::Reserving(WriteCall::Write)
            }
        }),
{
}

/// What happens while the session is stopped: an acknowledgment that came all the same still
/// completes a flush, or a shutdown whose finish command it answers.
pub proof fn late_acknowledgment_still_counts(state: WriteState, bytes: Seq<u8>)
    requires
        write_well_formed(state),
        state.phase is Awaiting,
    ensures
        ({
            let (after, action) = write_next(
                state,
                WriteEventView::Acknowledged { received: true, bytes, stopped: true },
            );
            &&& !after.awaiting
            &&& after.finished <==> state.finishing
            &&& action is Complete <==> state.phase == WritePhase::Awaiting(WriteCall::Flush)
                || state.phase == WritePhase::Awaiting(WriteCall::Shutdown) && state.finishing
            &&& action is WroteNothing <==> state.phase == WritePhase::Awaiting(WriteCall::Write)
                && bytes.len() == 0
        }),
{
}

/// A failed call leaves what was sent as it was; only an acknowledgment that was lost is no longer
/// waited for.
pub proof fn failure_takes_nothing_back(state: WriteState, event: WriteEventView)
    requires
        write_well_formed(state),
        write_next(state, event).1 is Fail,
    ensures
        ({
            let after = write_next(state, event).0;
            &&& after.phase is Idle
            &&& after.finishing == state.finishing
            &&& event !is Acknowledged ==> after.awaiting == state.awaiting && after.finished
                == state.finished
            &&& event is Acknowledged ==> !after.awaiting
            &&& (event matches WriteEventView::Acknowledged { received, .. } && !received)
                ==> after.finished == state.finished
        }),
{
}

/// An event that answers nothing that is waited for changes nothing, and only such an event is
/// ignored.
pub proof fn unawaited_events_are_ignored(state: WriteState, event: WriteEventView)
    requires
        write_well_formed(state),
    ensures
        ({
            let answers = match event {
                WriteEventView::Reserved { .. } => state.phase is Reserving,
                WriteEventView::Acknowledged { .. } => state.phase is Awaiting,
                _ => true,
            };
            &&& write_next(state, event).1 is Ignore <==> !answers
            &&& !answers ==> write_next(state, event).0 == state
        }),
{
}

/// The mathematical value of an event or an action is that event or action, with what it holds.
pub proof fn write_events_and_actions_mean_themselves(
    bytes: &[u8],
    flag: bool,
    stopped: bool,
    chunk: bytes::Bytes,
    error: StreamError,
)
    ensures
        (WriteEvent::Write { bytes, stopped })@ == (WriteEventView::Write {
            bytes: bytes@,
            stopped,
        }),
        (WriteEvent::Flush { stopped })@ == (WriteEventView::Flush { stopped }),
        (WriteEvent::Shutdown { stopped })@ == (WriteEventView::Shutdown { stopped }),
        (WriteEvent::Reserved { granted: flag, bytes })@ == (WriteEventView::Reserved {
            granted: flag,
            bytes: bytes@,
        }),
        (WriteEvent::Acknowledged { received: flag, bytes, stopped })@ == (
        WriteEventView::Acknowledged { received: flag, bytes: bytes@, stopped }),
        WriteAction::Reserve@ is Reserve,
        WriteAction::AwaitAcknowledgment@ is AwaitAcknowledgment,
        WriteAction::SendData(chunk)@ == WriteActionView::SendData(buffer_bytes(chunk)),
        WriteAction::SendFlush@ is SendFlush,
        WriteAction::SendFinish@ is SendFinish,
        WriteAction::WroteNothing@ is WroteNothing,
        WriteAction::Complete@ is Complete,
        WriteAction::Fail(error)@ == WriteActionView::Fail(error@),
        WriteAction::Ignore@ is Ignore,
        !write_start().awaiting,
        !write_start().finishing,
        !write_start().finished,
        write_start().phase is Idle,
        WRITE_QUEUE == 1,
{
}

/// A call waits for room or for an acknowledgment exactly while its last action was to ask for
/// that, and otherwise for nothing.
pub proof fn calls_wait_only_for_what_they_asked(state: WriteState, event: WriteEventView)
    requires
        write_well_formed(state),
        write_next(state, event).1 !is Ignore,
    ensures
        ({
            let (after, action) = write_next(state, event);
            &&& write_well_formed(after)
            &&& after.phase is Reserving <==> action is Reserve
            &&& after.phase is Awaiting <==> action is AwaitAcknowledgment || action is SendFlush
                || action is SendFinish
        }),
{
}

} // verus!
