//! The task that carries out the commands of a stream's write side.
use vstd::prelude::*;

verus! {

/// The kinds of commands.
#[derive(Clone, Copy, Debug, PartialEq, Eq, Structural)]
pub enum PumpCommand {
    /// Send data.
    Data,
    /// Acknowledge once everything before this was sent.
    Flush,
    /// End the stream, and acknowledge that.
    Finish,
}

/// What the task does next.
#[derive(Clone, Copy, Debug, PartialEq, Eq, Structural)]
pub enum PumpStage {
    /// Take the next command out of the queue.
    Receive,
    /// Send the data of the command.
    Send,
    /// End the stream.
    Finish,
    /// Nothing more.
    Ended,
}

/// What happened to the task.
#[derive(Clone, Copy, Debug, PartialEq, Eq, Structural)]
pub enum PumpEvent {
    /// A command was taken out of the queue.
    Command(PumpCommand),
    /// The queue is empty, and no command can come any more.
    QueueClosed,
    /// Sending the data or ending the stream succeeded or failed.
    Done { succeeded: bool },
    /// The connection was closed.
    ConnectionClosed,
}

/// The state of the task.
#[derive(Clone, Copy, Debug, PartialEq, Eq, Structural)]
pub struct PumpState {
    /// What the task does next.
    pub stage: PumpStage,
    /// Whether the stream was ended in order.
    pub finished: bool,
}

/// The task of a fresh stream.
pub open spec fn pump_start() -> PumpState {
    PumpState { stage: PumpStage::Receive, finished: false }
}

/// The state that follows `state` on `event`, and whether the command is to be acknowledged.
pub open spec fn pump_next(state: PumpState, event: PumpEvent) -> (PumpState, bool) {
    match (event, state.stage) {
        (PumpEvent::Command(PumpCommand::Data), PumpStage::Receive) => (
            PumpState { stage: PumpStage::Send, ..state },
            false,
        ),
        (PumpEvent::Command(PumpCommand::Flush), PumpStage::Receive) => (state, true),
        (PumpEvent::Command(PumpCommand::Finish), PumpStage::Receive) => (
            PumpState { stage: PumpStage::Finish, ..state },
            false,
        ),
        (PumpEvent::QueueClosed, PumpStage::Receive) => (
            PumpState { stage: PumpStage::Ended, ..state },
            false,
        ),
        (PumpEvent::Done { succeeded }, PumpStage::Send) => (
            PumpState {
                stage: if succeeded {
                    PumpStage::Receive
                } else {
                    PumpStage::Ended
                },
                ..state
            },
            false,
        ),
        (PumpEvent::Done { succeeded }, PumpStage::Finish) => (
            PumpState { stage: PumpStage::Ended, finished: succeeded },
            succeeded,
        ),
        (PumpEvent::ConnectionClosed, _) => (PumpState { stage: PumpStage::Ended, ..state }, false),
        _ => (state, false),
    }
}

/// The task that carries out the commands of one stream.
pub struct Pump {
    state: PumpState,
}

impl Pump {
    /// The state of the task.
    pub closed spec fn state(&self) -> PumpState {
        self.state
    }

    /// The task of a fresh stream.
    pub fn new() -> (pump: Self)
        ensures
            pump.state() == pump_start(),
    {
        Pump { state: PumpState { stage: PumpStage::Receive, finished: false } }
    }

    /// What the task does next.
    pub fn stage(&self) -> (stage: PumpStage)
        ensures
            stage == self.state().stage,
    {
        self.state.stage
    }

    /// Whether the send half has to be reset when the task lets go of it.
    pub fn must_reset(&self) -> (reset: bool)
        ensures
            reset == !self.state().finished,
    {
        !self.state.finished
    }

    /// Takes in what happened, and says whether to acknowledge the command.
    pub fn step(&mut self, event: PumpEvent) -> (acknowledge: bool)
        ensures
            (final(self).state(), acknowledge) == pump_next(old(self).state(), event),
    {
        match (event, self.state.stage) {
            (PumpEvent::Command(PumpCommand::Data), PumpStage::Receive) => {
                self.state.stage = PumpStage::Send;
                false
            },
            (PumpEvent::Command(PumpCommand::Flush), PumpStage::Receive) => true,
            (PumpEvent::Command(PumpCommand::Finish), PumpStage::Receive) => {
                self.state.stage = PumpStage::Finish;
                false
            },
            (PumpEvent::QueueClosed, PumpStage::Receive) => {
                self.state.stage = PumpStage::Ended;
                false
            },
            (PumpEvent::Done { succeeded }, PumpStage::Send) => {
                self.state.stage = if succeeded {
                    PumpStage::Receive
                } else {
                    PumpStage::Ended
                };
                false
            },
            (PumpEvent::Done { succeeded }, PumpStage::Finish) => {
                self.state.stage = PumpStage::Ended;
                self.state.finished = succeeded;
                succeeded
            },
            (PumpEvent::ConnectionClosed, _) => {
                self.state.stage = PumpStage::Ended;
                false
            },
            _ => false,
        }
    }
}

/// The state after `events`.
pub open spec fn pump_run(events: Seq<PumpEvent>) -> PumpState
    decreases events.len(),
{
    if events.len() == 0 {
        pump_start()
    } else {
        pump_next(pump_run(events.drop_last()), events.last()).0
    }
}

/// How many data commands were taken out of the queue.
pub open spec fn data_taken(events: Seq<PumpEvent>) -> nat
    decreases events.len(),
{
    if events.len() == 0 {
        0
    } else {
        let before = data_taken(events.drop_last());
        if events.last() == PumpEvent::Command(PumpCommand::Data) && pump_run(
            events.drop_last(),
        ).stage is Receive {
            before + 1
        } else {
            before
        }
    }
}

/// How many data commands were sent in full.
pub open spec fn data_sent(events: Seq<PumpEvent>) -> nat
    decreases events.len(),
{
    if events.len() == 0 {
        0
    } else {
        let before = data_sent(events.drop_last());
        if events.last() == (PumpEvent::Done { succeeded: true }) && pump_run(
            events.drop_last(),
        ).stage is Send {
            before + 1
        } else {
            before
        }
    }
}

proof fn lemma_data_in_flight(events: Seq<PumpEvent>)
    ensures
        pump_run(events).stage is Receive || pump_run(events).stage is Finish ==> data_taken(events)
            == data_sent(events),
        pump_run(events).stage is Send ==> data_taken(events) == data_sent(events) + 1,
        pump_run(events).finished ==> pump_run(events).stage is Ended && data_taken(events)
            == data_sent(events),
    decreases events.len(),
{
    if events.len() > 0 {
        lemma_data_in_flight(events.drop_last());
    }
}

/// When a flush or a finish command is acknowledged, all data taken before it was sent.
pub proof fn acknowledgment_means_all_data_sent(events: Seq<PumpEvent>, event: PumpEvent)
    requires
        pump_next(pump_run(events), event).1,
    ensures
        data_taken(events) == data_sent(events),
{
    lemma_data_in_flight(events);
}

/// A stream that ended in order lost no data, and its task does nothing more.
pub proof fn finished_means_all_data_sent(events: Seq<PumpEvent>, event: PumpEvent)
    requires
        pump_run(events).finished,
    ensures
        data_taken(events) == data_sent(events),
        pump_run(events).stage is Ended,
        pump_next(pump_run(events), event) == (pump_run(events), false),
{
    lemma_data_in_flight(events);
}

/// The send half is reset unless the stream was ended in order: only a finish command whose
/// work succeeded makes the difference.
pub proof fn only_finish_averts_the_reset(events: Seq<PumpEvent>, event: PumpEvent)
    requires
        !pump_run(events).finished,
    ensures
        pump_next(pump_run(events), event).0.finished <==> pump_run(events).stage is Finish && event
            == (PumpEvent::Done { succeeded: true }),
{
}

/// A task that has ended stays ended.
pub proof fn pump_end_is_final(state: PumpState, event: PumpEvent)
    requires
        state.stage is Ended,
    ensures
        pump_next(state, event) == (state, false),
{
}

/// The send half is spared the reset exactly if the stream was once ended in order: the task had
/// taken a finish command, and its work succeeded.
pub proof fn finished_means_the_end_was_sent(events: Seq<PumpEvent>)
    ensures
        pump_run(events).finished <==> exists|i: int|
            0 <= i < events.len() && #[trigger] pump_run(events.take(i)).stage is Finish && events[i]
                == (PumpEvent::Done { succeeded: true }),
        pump_run(events).stage is Finish ==> events.contains(PumpEvent::Command(PumpCommand::Finish)),
    decreases events.len(),
{
    if events.len() > 0 {
        let earlier = events.drop_last();
        let last: int = events.len() - 1;
        finished_means_the_end_was_sent(earlier);
        lemma_data_in_flight(earlier);
        assert(events.take(last) =~= earlier);
        assert forall|i: int| 0 <= i < last implies #[trigger] events.take(i) == earlier.take(
            i,
        ) by {
            assert(events.take(i) =~= earlier.take(i));
        }
        if pump_run(earlier).finished {
            let i = choose|i: int|
                0 <= i < earlier.len() && #[trigger] pump_run(earlier.take(i)).stage is Finish
                    && earlier[i] == (PumpEvent::Done { succeeded: true });
            assert(pump_run(events.take(i)).stage is Finish);
            assert(events[i] == earlier[i]);
        } else if pump_run(events).finished {
            assert(pump_run(events.take(last)).stage is Finish);
        } else {
            assert forall|i: int| 0 <= i < events.len() && #[trigger] pump_run(
                events.take(i),
            ).stage is Finish implies events[i] != (PumpEvent::Done { succeeded: true }) by {
                if i < last {
                    assert(pump_run(earlier.take(i)).stage is Finish);
                    assert(earlier[i] == events[i]);
                }
            }
        }
        if pump_run(events).stage is Finish {
            if pump_run(earlier).stage is Finish {
                let i = choose|i: int|
                    0 <= i < earlier.len() && earlier[i] == PumpEvent::Command(PumpCommand::Finish);
                assert(events[i] == earlier[i]);
            } else {
                assert(events[last] == PumpEvent::Command(PumpCommand::Finish));
            }
        }
    }
}

/// A command is acknowledged on two occasions and on no other: a flush command when it is taken,
/// and a finish command when ending the stream has succeeded.
pub proof fn acknowledgment_has_a_cause(state: PumpState, event: PumpEvent)
    ensures
        pump_next(state, event).1 <==> {
            ||| state.stage is Receive && event == PumpEvent::Command(PumpCommand::Flush)
            ||| state.stage is Finish && event == (PumpEvent::Done { succeeded: true })
        },
{
}

/// The task carries out one command after the other: it sends the data of a data command and comes
/// back for the next command, ends the stream for a finish command, and stops when it has ended the
/// stream, when its work fails, when no command can come any more, or when the connection is closed.
pub proof fn task_carries_out_its_commands(state: PumpState, event: PumpEvent)
    ensures
        ({
            let after = pump_next(state, event).0;
            let closed = event is ConnectionClosed;
            &&& after.stage is Send <==> {
                ||| state.stage is Receive && event == PumpEvent::Command(PumpCommand::Data)
                ||| state.stage is Send && event !is Done && !closed
            }
            &&& after.stage is Finish <==> {
                ||| state.stage is Receive && event == PumpEvent::Command(PumpCommand::Finish)
                ||| state.stage is Finish && event !is Done && !closed
            }
            &&& after.stage is Ended <==> {
                ||| state.stage is Ended
                ||| closed
                ||| state.stage is Receive && event is QueueClosed
                ||| state.stage is Send && event == (PumpEvent::Done { succeeded: false })
                ||| state.stage is Finish && event is Done
            }
            &&& !(state.stage is Finish && event is Done) ==> after.finished == state.finished
            &&& state.stage is Finish ==> (event matches PumpEvent::Done { succeeded }
                ==> after.finished == succeeded)
        }),
        pump_start().stage is Receive,
        !pump_start().finished,
{
}

/// The state after each of the commands was sent in full, in turn.
pub open spec fn all_sent(count: nat) -> PumpState
    decreases count,
{
    if count == 0 {
        pump_start()
    } else {
        pump_next(
            pump_next(
                all_sent((count - 1) as nat),
                PumpEvent::Command(PumpCommand::Data),
            ).0,
            PumpEvent::Done { succeeded: true },
        ).0
    }
}

/// However much data was sent before, a flush is acknowledged, and a finish command whose work
/// succeeds ends the stream in order.
pub proof fn any_amount_of_data_can_be_finished(count: nat)
    ensures
        pump_next(all_sent(count), PumpEvent::Command(PumpCommand::Flush)) == (
            all_sent(count),
            true,
        ),
        ({
            let ending = pump_next(all_sent(count), PumpEvent::Command(PumpCommand::Finish)).0;
            let (after, acknowledge) = pump_next(ending, PumpEvent::Done { succeeded: true });
            acknowledge && after.finished && after.stage is Ended
        }),
{
    lemma_all_sent(count);
}

proof fn lemma_all_sent(count: nat)
    ensures
        all_sent(count) == pump_start(),
    decreases count,
{
    if count > 0 {
        lemma_all_sent((count - 1) as nat);
    }
}

} // verus!
