//! The read side of a tunnel stream.
use vstd::prelude::*;

use crate::error::{
    broken, broken_view, illegal_trailers, illegal_trailers_view, StreamError, StreamErrorKind,
    StreamErrorView,
};
use crate::outside::buffer_bytes;

verus! {

/// Times that one read asks the connection for data before it lets others run.
pub const MAX_READ_ROUNDS: u32 = 32;

/// What a read in progress waits for.
#[derive(Clone, Copy, Debug, PartialEq, Eq, Structural)]
pub enum ReadPhase {
    /// No read is in progress.
    Idle,
    /// Data for a buffer with this much room, after this many requests for data.
    Data { room: usize, rounds: u32 },
    /// The end of the stream, or trailers.
    Trailers,
}

/// What happened on the read side.
pub enum ReadEvent {
    /// The user reads into a buffer with this much room. `stopped` tells whether the session was
    /// stopped. A read that was left waiting is given up.
    Poll { room: usize, stopped: bool },
    /// Data came.
    Data(bytes::Bytes),
    /// There is no more data.
    DataEnded,
    /// Data could not be received.
    DataFailed,
    /// The stream ended, without trailers or with some.
    Ended { trailers: bool },
    /// The end of the stream could not be received.
    EndFailed,
}

/// The mathematical value of a [`ReadEvent`].
pub enum ReadEventView {
    Poll { room: usize, stopped: bool },
    Data(Seq<u8>),
    DataEnded,
    DataFailed,
    Ended { trailers: bool },
    EndFailed,
}

impl View for ReadEvent {
    type V = ReadEventView;

    open spec fn view(&self) -> ReadEventView {
        match *self {
            ReadEvent::Poll { room, stopped } => ReadEventView::Poll { room, stopped },
            ReadEvent::Data(chunk) => ReadEventView::Data(buffer_bytes(chunk)),
            ReadEvent::DataEnded => ReadEventView::DataEnded,
            ReadEvent::DataFailed => ReadEventView::DataFailed,
            ReadEvent::Ended { trailers } => ReadEventView::Ended { trailers },
            ReadEvent::EndFailed => ReadEventView::EndFailed,
        }
    }
}

/// What to do next for the read.
pub enum ReadAction {
    /// The read is done and delivers nothing: there is no room, or the stream has ended.
    Complete,
    /// The read is done and delivers these bytes.
    Deliver(bytes::Bytes),
    /// Ask the connection for data.
    PollData,
    /// Ask the connection for the end of the stream.
    PollTrailers,
    /// Let others run, and read again.
    Yield,
    /// The read fails.
    Fail(StreamError),
    /// Nothing: the event answered no outstanding request.
    Ignore,
}

/// The mathematical value of a [`ReadAction`].
pub enum ReadActionView {
    Complete,
    Deliver(Seq<u8>),
    PollData,
    PollTrailers,
    Yield,
    Fail(StreamErrorView),
    Ignore,
}

impl View for ReadAction {
    type V = ReadActionView;

    open spec fn view(&self) -> ReadActionView {
        match *self {
            ReadAction::Complete => ReadActionView::Complete,
            ReadAction::Deliver(chunk) => ReadActionView::Deliver(buffer_bytes(chunk)),
            ReadAction::PollData => ReadActionView::PollData,
            ReadAction::PollTrailers => ReadActionView::PollTrailers,
            ReadAction::Yield => ReadActionView::Yield,
            ReadAction::Fail(error) => ReadActionView::Fail(error@),
            ReadAction::Ignore => ReadActionView::Ignore,
        }
    }
}

/// The state of the read side.
pub struct ReadState {
    /// Bytes that came and were not delivered yet.
    pub buffered: Seq<u8>,
    /// Whether the data has ended.
    pub data_ended: bool,
    /// Whether the stream has ended.
    pub eof: bool,
    /// What the read in progress waits for.
    pub phase: ReadPhase,
}

/// Data is only asked for when none is left over and none has been missed, and a stream ends only
/// after its data has ended and was delivered.
pub open spec fn read_well_formed(state: ReadState) -> bool {
    &&& state.phase is Data ==> {
        &&& state.buffered.len() == 0
        &&& !state.data_ended
        &&& state.phase->room > 0
        &&& 0 < state.phase->rounds <= MAX_READ_ROUNDS
    }
    &&& state.phase is Trailers ==> state.buffered.len() == 0 && state.data_ended && !state.eof
    &&& state.eof ==> state.buffered.len() == 0 && state.data_ended
}

/// The read side of a fresh stream.
pub open spec fn read_start() -> ReadState {
    ReadState { buffered: seq![], data_ended: false, eof: false, phase: ReadPhase::Idle }
}

/// How a read goes on that has room for `room` bytes and has asked for data `rounds` times.
pub open spec fn read_on(state: ReadState, room: usize, rounds: u32) -> (ReadState, ReadActionView) {
    let idle = ReadState { phase: ReadPhase::Idle, ..state };
    if rounds >= MAX_READ_ROUNDS {
        (idle, ReadActionView::Yield)
    } else if state.buffered.len() > 0 {
        let count: int = if room <= state.buffered.len() {
            room as int
        } else {
            state.buffered.len() as int
        };
        (
            ReadState { buffered: state.buffered.skip(count), ..idle },
            ReadActionView::Deliver(state.buffered.take(count)),
        )
    } else if state.data_ended {
        (ReadState { phase: ReadPhase::Trailers, ..state }, ReadActionView::PollTrailers)
    } else {
        (
            ReadState { phase: ReadPhase::Data { room, rounds: (rounds + 1) as u32 }, ..state },
            ReadActionView::PollData,
        )
    }
}

/// The state and the action that follow `state` on `event`.
pub open spec fn read_next(state: ReadState, event: ReadEventView) -> (ReadState, ReadActionView) {
    let idle = ReadState { phase: ReadPhase::Idle, ..state };
    match (event, state.phase) {
        (ReadEventView::Poll { room, stopped }, _) => if room == 0 {
            (idle, ReadActionView::Complete)
        } else if stopped {
            (idle, ReadActionView::Fail(broken_view()))
        } else if state.eof {
            (idle, ReadActionView::Complete)
        } else {
            read_on(state, room, 0)
        },
        (ReadEventView::Data(chunk), ReadPhase::Data { room, rounds }) => read_on(
            ReadState { buffered: chunk, ..state },
            room,
            rounds,
        ),
        (ReadEventView::DataEnded, ReadPhase::Data { room, rounds }) => read_on(
            ReadState { data_ended: true, ..state },
            room,
            rounds,
        ),
        (ReadEventView::DataFailed, ReadPhase::Data { .. }) => (
            idle,
            ReadActionView::Fail(broken_view()),
        ),
        (ReadEventView::Ended { trailers }, ReadPhase::Trailers) => if trailers {
            (idle, ReadActionView::Fail(illegal_trailers_view()))
        } else {
            (ReadState { eof: true, ..idle }, ReadActionView::Complete)
        },
        (ReadEventView::EndFailed, ReadPhase::Trailers) => (
            idle,
            ReadActionView::Fail(broken_view()),
        ),
        _ => (state, ReadActionView::Ignore),
    }
}

/// The read side of a tunnel stream. Data goes from the connection to the user without a copy
/// in between.
pub struct ReadSide {
    buffered: bytes::Bytes,
    data_ended: bool,
    eof: bool,
    phase: ReadPhase,
}

impl ReadSide {
    /// The state of the read side.
    pub closed spec fn state(&self) -> ReadState {
        ReadState {
            buffered: buffer_bytes(self.buffered),
            data_ended: self.data_ended,
            eof: self.eof,
            phase: self.phase,
        }
    }

    #[verifier::type_invariant]
    closed spec fn well_formed(&self) -> bool {
        read_well_formed(self.state())
    }

    /// The read side of a fresh stream.
    pub fn new() -> (side: Self)
        ensures
            side.state() == read_start(),
    {
        ReadSide {
            buffered: bytes::Bytes::new(),
            data_ended: false,
            eof: false,
            phase: ReadPhase::Idle,
        }
    }

    fn go_on(&mut self, room: usize, rounds: u32) -> (action: ReadAction)
        requires
            room > 0,
            old(self).state().phase is Idle,
            !old(self).state().eof,
        ensures
            (final(self).state(), action@) == read_on(old(self).state(), room, rounds),
    {
        proof {
            use_type_invariant(&*self);
        }
        if rounds >= MAX_READ_ROUNDS {
            return ReadAction::Yield;
        }
        if !self.buffered.is_empty() {
            let mut rest = bytes::Bytes::new();
            std::mem::swap(&mut rest, &mut self.buffered);
            let count: usize = if room <= rest.len() {
                room
            } else {
                rest.len()
            };
            let front = rest.split_to(count);
            self.buffered = rest;
            return ReadAction::Deliver(front);
        }
        if self.data_ended {
            self.phase = ReadPhase::Trailers;
            return ReadAction::PollTrailers;
        }
        self.phase = ReadPhase::Data { room, rounds: rounds + 1 };
        ReadAction::PollData
    }

    /// Takes in what happened and says what to do next.
    pub fn step(&mut self, event: ReadEvent) -> (action: ReadAction)
        ensures
            (final(self).state(), action@) == read_next(old(self).state(), event@),
            read_well_formed(final(self).state()),
    {
        proof {
            use_type_invariant(&*self);
        }
        let phase = self.phase;
        let action = match (event, phase) {
            (ReadEvent::Poll { room, stopped }, _) => {
                self.phase = ReadPhase::Idle;
                if room == 0 {
                    ReadAction::Complete
                } else if stopped {
                    ReadAction::Fail(broken())
                } else if self.eof {
                    ReadAction::Complete
                } else {
                    self.go_on(room, 0)
                }
            },
            (ReadEvent::Data(chunk), ReadPhase::Data { room, rounds }) => {
                self.phase = ReadPhase::Idle;
                self.buffered = chunk;
                self.go_on(room, rounds)
            },
            (ReadEvent::DataEnded, ReadPhase::Data { room, rounds }) => {
                self.phase = ReadPhase::Idle;
                self.data_ended = true;
                self.go_on(room, rounds)
            },
            (ReadEvent::DataFailed, ReadPhase::Data { .. }) => {
                self.phase = ReadPhase::Idle;
                ReadAction::Fail(broken())
            },
            (ReadEvent::Ended { trailers }, ReadPhase::Trailers) => {
                self.phase = ReadPhase::Idle;
                if trailers {
                    ReadAction::Fail(illegal_trailers())
                } else {
                    self.eof = true;
                    ReadAction::Complete
                }
            },
            (ReadEvent::EndFailed, ReadPhase::Trailers) => {
                self.phase = ReadPhase::Idle;
                ReadAction::Fail(broken())
            },
            _ => ReadAction::Ignore,
        };
        proof {
            use_type_invariant(&*self);
        }
        action
    }
}

/// The state after `events`, starting from `state`.
pub open spec fn read_run(state: ReadState, events: Seq<ReadEventView>) -> ReadState
    decreases events.len(),
{
    if events.len() == 0 {
        state
    } else {
        read_next(read_run(state, events.drop_last()), events.last()).0
    }
}

/// The bytes that the connection handed over in answer to a request for data, in order.
pub open spec fn received(state: ReadState, events: Seq<ReadEventView>) -> Seq<u8>
    decreases events.len(),
{
    if events.len() == 0 {
        seq![]
    } else {
        let before = received(state, events.drop_last());
        match (events.last(), read_run(state, events.drop_last()).phase) {
            (ReadEventView::Data(chunk), ReadPhase::Data { .. }) => before + chunk,
            _ => before,
        }
    }
}

/// The bytes that reads delivered to the user, in order.
pub open spec fn delivered(state: ReadState, events: Seq<ReadEventView>) -> Seq<u8>
    decreases events.len(),
{
    if events.len() == 0 {
        seq![]
    } else {
        let before = delivered(state, events.drop_last());
        match read_next(read_run(state, events.drop_last()), events.last()).1 {
            ReadActionView::Deliver(chunk) => before + chunk,
            _ => before,
        }
    }
}

proof fn lemma_read_run_well_formed(state: ReadState, events: Seq<ReadEventView>)
    requires
        read_well_formed(state),
    ensures
        read_well_formed(read_run(state, events)),
    decreases events.len(),
{
    if events.len() > 0 {
        lemma_read_run_well_formed(state, events.drop_last());
    }
}

/// Reads deliver what the connection handed over: all of it but for what is still buffered, in
/// order, with nothing lost, repeated or made up, whatever happens in between.
pub proof fn reads_deliver_what_was_received(events: Seq<ReadEventView>)
    ensures
        delivered(read_start(), events) + read_run(read_start(), events).buffered == received(
            read_start(),
            events,
        ),
    decreases events.len(),
{
    let start = read_start();
    if events.len() > 0 {
        let earlier = events.drop_last();
        reads_deliver_what_was_received(earlier);
        lemma_read_run_well_formed(start, earlier);
        let before = read_run(start, earlier);
        let chunk = match (events.last(), before.phase) {
            (ReadEventView::Data(chunk), ReadPhase::Data { .. }) => chunk,
            _ => Seq::<u8>::empty(),
        };
        let given = match read_next(before, events.last()).1 {
            ReadActionView::Deliver(given) => given,
            _ => Seq::<u8>::empty(),
        };
        let after = read_next(before, events.last()).0;
        assert(given + after.buffered =~= before.buffered + chunk);
        assert(delivered(start, events) + after.buffered =~= delivered(start, earlier) + (given
            + after.buffered));
        assert(received(start, events) =~= (delivered(start, earlier) + before.buffered) + chunk);
        assert((delivered(start, earlier) + before.buffered) + chunk =~= delivered(start, earlier)
            + (before.buffered + chunk));
    }
}

/// A read with room ends the stream cleanly only if the connection reported the end of the data
/// and, after that, an end without trailers. A reset or an end with trailers is an error.
pub proof fn clean_end_needs_an_end_without_trailers(events: Seq<ReadEventView>)
    ensures
        read_run(read_start(), events).data_ended ==> exists|i: int|
            0 <= i < events.len() && events[i] == ReadEventView::DataEnded,
        read_run(read_start(), events).eof ==> exists|i: int, j: int|
            #![trigger events[i], events[j]]
            0 <= i < j < events.len() && events[i] == ReadEventView::DataEnded && events[j]
                == (ReadEventView::Ended { trailers: false }),
    decreases events.len(),
{
    let start = read_start();
    if events.len() > 0 {
        let earlier = events.drop_last();
        clean_end_needs_an_end_without_trailers(earlier);
        lemma_read_run_well_formed(start, earlier);
        let before = read_run(start, earlier);
        let last: int = events.len() - 1;
        if before.data_ended {
            let i = choose|i: int| 0 <= i < earlier.len() && earlier[i] == ReadEventView::DataEnded;
            assert(events[i] == ReadEventView::DataEnded);
            if read_run(start, events).eof && !before.eof {
                assert(events[last] == (ReadEventView::Ended { trailers: false }));
            }
        } else if read_run(start, events).data_ended {
            assert(events[last] == ReadEventView::DataEnded);
        }
        if before.eof {
            let (i, j) = choose|i: int, j: int|
                #![trigger earlier[i], earlier[j]]
                0 <= i < j < earlier.len() && earlier[i] == ReadEventView::DataEnded && earlier[j]
                    == (ReadEventView::Ended { trailers: false });
            assert(events[i] == ReadEventView::DataEnded);
            assert(events[j] == (ReadEventView::Ended { trailers: false }));
        }
    }
}

/// A read with room that completes without bytes says that the stream has ended, and the stream
/// then stays ended: every later read of a session that was not stopped completes without bytes.
pub proof fn empty_read_means_the_end(state: ReadState, event: ReadEventView, later: ReadEventView)
    requires
        read_well_formed(state),
        read_next(state, event).1 is Complete,
        event matches ReadEventView::Poll { room, .. } ==> room > 0,
        later matches ReadEventView::Poll { stopped, .. } && !stopped,
    ensures
        read_next(state, event).0.eof,
        read_next(read_next(state, event).0, later).1 is Complete,
        read_next(read_next(state, event).0, later).0.eof,
{
}

/// A stopped session fails every read with room, and delivers nothing.
pub proof fn stopped_session_fails_reads(state: ReadState, room: usize)
    requires
        room > 0,
    ensures
        read_next(state, ReadEventView::Poll { room, stopped: true }).1 == ReadActionView::Fail(
            broken_view(),
        ),
{
}

/// A delivery is never empty and never longer than the room that the read has.
pub proof fn deliveries_fit_the_room(state: ReadState, event: ReadEventView)
    requires
        read_well_formed(state),
        read_next(state, event).1 is Deliver,
    ensures
        read_next(state, event).1->Deliver_0.len() > 0,
        event matches ReadEventView::Poll { room, .. } ==> read_next(state, event).1->Deliver_0.len()
            <= room,
        event !is Poll ==> state.phase is Data && read_next(state, event).1->Deliver_0.len()
            <= state.phase->room,
{
}

/// One read asks for data a bounded number of times: each request is numbered, and none follows
/// the last number.
pub proof fn reads_are_bounded(state: ReadState, event: ReadEventView)
    requires
        read_well_formed(state),
        read_next(state, event).1 is PollData,
    ensures
        read_next(state, event).0.phase is Data,
        read_next(state, event).0.phase->rounds <= MAX_READ_ROUNDS,
        event is Poll ==> read_next(state, event).0.phase->rounds == 1,
        event !is Poll ==> state.phase is Data && read_next(state, event).0.phase->rounds
            == state.phase->rounds + 1,
{
}

/// A read fails on one of four occasions and on no other: it has room and the session was stopped,
/// data could not be received, the end could not be received, or the end came with trailers.
/// Trailers are told apart from a reset, and a failed read loses nothing that is buffered.
pub proof fn reads_fail_only_for_cause(state: ReadState, event: ReadEventView, error: StreamErrorView)
    requires
        read_well_formed(state),
    ensures
        read_next(state, event).1 == ReadActionView::Fail(error) <==> {
            ||| {
                &&& error.kind == StreamErrorKind::ConnectionReset
                &&& error.message == "HTTP/3 tunnel stream closed or reset"@
                &&& {
                    ||| event matches ReadEventView::Poll { room, stopped } && room > 0 && stopped
                    ||| state.phase is Data && event is DataFailed
                    ||| state.phase is Trailers && event is EndFailed
                }
            }
            ||| {
                &&& error.kind == StreamErrorKind::InvalidData
                &&& error.message == "trailers are not permitted in a CONNECT tunnel"@
                &&& state.phase is Trailers
                &&& event == (ReadEventView::Ended { trailers: true })
            }
        },
        read_next(state, event).1 is Fail ==> read_next(state, event).0.buffered == state.buffered
            && read_next(state, event).0.data_ended == state.data_ended && read_next(
            state,
            event,
        ).0.eof == state.eof,
{
}

/// A read of a session that was not stopped delivers buffered bytes at once: the first ones, as
/// many as there are or as there is room for, while the rest stays buffered.
pub proof fn buffered_bytes_are_delivered(state: ReadState, room: usize)
    requires
        read_well_formed(state),
        room > 0,
        state.buffered.len() > 0,
    ensures
        ({
            let (after, action) = read_next(state, ReadEventView::Poll { room, stopped: false });
            &&& action is Deliver
            &&& action->Deliver_0 + after.buffered == state.buffered
            &&& action->Deliver_0.len() == room || after.buffered.len() == 0
            &&& action->Deliver_0.len() <= room
            &&& after.phase is Idle
            &&& after.data_ended == state.data_ended
            &&& after.eof == state.eof
        }),
{
    let (after, action) = read_next(state, ReadEventView::Poll { room, stopped: false });
    assert(action->Deliver_0 + after.buffered =~= state.buffered);
}

/// Data that comes is delivered in the same read, whatever its size: as much as there is room for,
/// while the rest stays buffered. Empty data leads to another request for data. After the
/// thirty-second request the read lets others run first and keeps what came.
pub proof fn received_data_is_delivered(state: ReadState, chunk: Seq<u8>)
    requires
        read_well_formed(state),
        state.phase is Data,
    ensures
        ({
            let (after, action) = read_next(state, ReadEventView::Data(chunk));
            &&& state.phase->rounds < 32 && chunk.len() > 0 ==> {
                &&& action is Deliver
                &&& action->Deliver_0 + after.buffered == chunk
                &&& action->Deliver_0.len() == state.phase->room || after.buffered.len() == 0
                &&& action->Deliver_0.len() <= state.phase->room
                &&& after.phase is Idle
            }
            &&& state.phase->rounds < 32 && chunk.len() == 0 ==> {
                &&& action is PollData
                &&& after.buffered.len() == 0
                &&& after.phase == (ReadPhase::Data {
                    room: state.phase->room,
                    rounds: (state.phase->rounds + 1) as u32,
                })
            }
            &&& state.phase->rounds == 32 ==> action is Yield && after.buffered == chunk
                && after.phase is Idle
            &&& !after.data_ended
            &&& !after.eof
        }),
{
    let (after, action) = read_next(state, ReadEventView::Data(chunk));
    if state.phase->rounds < 32 && chunk.len() > 0 {
        assert(action->Deliver_0 + after.buffered =~= chunk);
    }
}

/// The end of the data leads to the end of the stream being asked for, and an end without trailers
/// is the end for good. After the thirty-second request for data the read lets others run first.
pub proof fn end_is_asked_for_and_reached(state: ReadState)
    requires
        read_well_formed(state),
    ensures
        state.phase is Data ==> ({
            let (after, action) = read_next(state, ReadEventView::DataEnded);
            &&& after.data_ended
            &&& !after.eof
            &&& after.buffered.len() == 0
            &&& state.phase->rounds < 32 ==> action is PollTrailers && after.phase is Trailers
            &&& state.phase->rounds == 32 ==> action is Yield && after.phase is Idle
        }),
        state.phase is Trailers ==> ({
            let (after, action) = read_next(state, ReadEventView::Ended { trailers: false });
            &&& action is Complete
            &&& after.eof
            &&& after.data_ended
            &&& after.buffered.len() == 0
        }),
{
}

/// A read with room that finds nothing buffered asks for what is still to come: data, then the end
/// of the stream; and it completes exactly once the stream has ended. Without room it completes at
/// once. Nothing of this changes what is known of the stream.
pub proof fn read_asks_for_what_is_still_to_come(state: ReadState, room: usize, stopped: bool)
    requires
        read_well_formed(state),
    ensures
        ({
            let (after, action) = read_next(state, ReadEventView::Poll { room, stopped });
            let waits = room > 0 && !stopped && state.buffered.len() == 0;
            &&& action is Complete <==> room == 0 || (!stopped && state.eof)
            &&& action is PollTrailers <==> waits && state.data_ended && !state.eof
            &&& action is PollData <==> waits && !state.data_ended
            &&& action is PollData ==> after.phase == (ReadPhase::Data { room, rounds: 1 })
            &&& action is PollTrailers ==> after.phase is Trailers
            &&& action !is Yield
            &&& action !is Ignore
            &&& action !is Deliver ==> after.buffered == state.buffered
            &&& after.data_ended == state.data_ended
            &&& after.eof == state.eof
        }),
{
}

/// An event that answers no request changes nothing and asks for nothing, and only such an event
/// is ignored.
pub proof fn unasked_events_are_ignored(state: ReadState, event: ReadEventView)
    requires
        read_well_formed(state),
    ensures
        ({
            let answers = match event {
                ReadEventView::Poll { .. } => true,
                ReadEventView::Data(_) => state.phase is Data,
                ReadEventView::DataEnded => state.phase is Data,
                ReadEventView::DataFailed => state.phase is Data,
                ReadEventView::Ended { .. } => state.phase is Trailers,
                ReadEventView::EndFailed => state.phase is Trailers,
            };
            &&& read_next(state, event).1 is Ignore <==> !answers
            &&& !answers ==> read_next(state, event).0 == state
        }),
{
}

/// The events of reads in turn, with these amounts of room.
pub open spec fn polls(rooms: Seq<usize>) -> Seq<ReadEventView> {
    Seq::new(rooms.len(), |i: int| ReadEventView::Poll { room: rooms[i], stopped: false })
}

/// The sum of all room.
pub open spec fn total_room(rooms: Seq<usize>) -> nat
    decreases rooms.len(),
{
    if rooms.len() == 0 {
        0
    } else {
        total_room(rooms.drop_last()) + rooms.last() as nat
    }
}

/// However the room is divided among reads in turn, they deliver the same bytes: the first of those
/// that are buffered, as many as all the room together takes.
pub proof fn division_of_room_does_not_matter(state: ReadState, rooms: Seq<usize>)
    requires
        read_well_formed(state),
    ensures
        ({
            let given = delivered(state, polls(rooms));
            &&& given + read_run(state, polls(rooms)).buffered == state.buffered
            &&& given.len() == total_room(rooms) || (given.len() == state.buffered.len()
                && total_room(rooms) >= given.len())
        }),
    decreases rooms.len(),
{
    if rooms.len() == 0 {
        assert(delivered(state, polls(rooms)) + read_run(state, polls(rooms)).buffered
            =~= state.buffered);
    } else {
        let earlier = rooms.drop_last();
        division_of_room_does_not_matter(state, earlier);
        lemma_read_run_well_formed(state, polls(earlier));
        assert(polls(rooms).drop_last() =~= polls(earlier));
        let before = read_run(state, polls(earlier));
        let event = ReadEventView::Poll { room: rooms.last(), stopped: false };
        assert(polls(rooms).last() == event);
        if before.buffered.len() > 0 && rooms.last() > 0 {
            buffered_bytes_are_delivered(before, rooms.last());
        } else {
            read_asks_for_what_is_still_to_come(before, rooms.last(), false);
        }
        let after = read_next(before, event).0;
        let given = match read_next(before, event).1 {
            ReadActionView::Deliver(given) => given,
            _ => Seq::<u8>::empty(),
        };
        assert(given + after.buffered =~= before.buffered);
        assert(delivered(state, polls(rooms)) =~= delivered(state, polls(earlier)) + given);
        assert(delivered(state, polls(rooms)) + after.buffered =~= delivered(state, polls(earlier))
            + (given + after.buffered));
    }
}

/// The mathematical value of an event or an action is that event or action, with what it holds.
pub proof fn read_events_and_actions_mean_themselves(
    room: usize,
    flag: bool,
    chunk: bytes::Bytes,
    error: StreamError,
)
    ensures
        (ReadEvent::Poll { room, stopped: flag })@ == (ReadEventView::Poll { room, stopped: flag }),
        ReadEvent::Data(chunk)@ == ReadEventView::Data(buffer_bytes(chunk)),
        ReadEvent::DataEnded@ is DataEnded,
        ReadEvent::DataFailed@ is DataFailed,
        (ReadEvent::Ended { trailers: flag })@ == (ReadEventView::Ended { trailers: flag }),
        ReadEvent::EndFailed@ is EndFailed,
        ReadAction::Complete@ is Complete,
        ReadAction::Deliver(chunk)@ == ReadActionView::Deliver(buffer_bytes(chunk)),
        ReadAction::PollData@ is PollData,
        ReadAction::PollTrailers@ is PollTrailers,
        ReadAction::Yield@ is Yield,
        ReadAction::Fail(error)@ == ReadActionView::Fail(error@),
        ReadAction::Ignore@ is Ignore,
        read_start().buffered.len() == 0,
        !read_start().data_ended,
        !read_start().eof,
        read_start().phase is Idle,
{
}

/// A read waits for data or for the end exactly while it has asked for that, and otherwise for
/// nothing.
pub proof fn reads_wait_only_for_what_they_asked(state: ReadState, event: ReadEventView)
    requires
        read_well_formed(state),
        read_next(state, event).1 !is Ignore,
    ensures
        read_well_formed(read_next(state, event).0),
        read_next(state, event).0.phase is Data <==> read_next(state, event).1 is PollData,
        read_next(state, event).0.phase is Trailers <==> read_next(state, event).1 is PollTrailers,
{
}

} // verus!
