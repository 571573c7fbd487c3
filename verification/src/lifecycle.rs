//! The streams of a provider over their life: how they share the places that there are, what a
//! shutdown leaves, and what goes when one of them goes.
use vstd::prelude::*;

use crate::dial::{dial_ended, dial_next, failed_dial, DialEventView, DialStageView};
use crate::error::broken_view;
use crate::provider::MAX_STREAMS;
use crate::read::{read_next, ReadActionView, ReadEventView, ReadState};
use crate::sessions::{
    session_next, session_run, session_tasks, sessions_are_bounded_and_current_is_kept, sessions_next,
    sessions_run, stop_is_final, SessionOp, SessionState, SessionsOp,
};
use crate::write::{write_next, WriteEventView, WriteState};

verus! {

/// One dial and, once it is connected, its stream.
pub enum Slot {
    /// The dial stands at this stage; a connected one is a live stream.
    Dial(DialStageView),
    /// The dial was cancelled, or its stream was dropped.
    Gone,
}

/// Whether a dial or its stream holds a place: from being admitted until it fails or goes.
pub open spec fn holds_place(slot: Slot) -> bool {
    slot matches Slot::Dial(stage) && (stage is Session || stage is Send || stage is Await
        || stage is Open || stage is Connected)
}

/// Whether there is a live stream.
pub open spec fn is_live(slot: Slot) -> bool {
    slot == Slot::Dial(DialStageView::Connected)
}

/// Whether a dial has not ended.
pub open spec fn is_pending(slot: Slot) -> bool {
    slot matches Slot::Dial(stage) && !dial_ended(stage)
}

/// How many slots are `wanted`.
pub open spec fn count(slots: Seq<Slot>, wanted: spec_fn(Slot) -> bool) -> nat
    decreases slots.len(),
{
    if slots.len() == 0 {
        0
    } else {
        count(slots.drop_last(), wanted) + if wanted(slots.last()) {
            1nat
        } else {
            0
        }
    }
}

/// How many places are held.
pub open spec fn places_held(slots: Seq<Slot>) -> nat {
    count(slots, |slot: Slot| holds_place(slot))
}

/// How many streams are live.
pub open spec fn streams_live(slots: Seq<Slot>) -> nat {
    count(slots, |slot: Slot| is_live(slot))
}

/// The places of a provider, and the dials and streams that share them.
pub struct Places {
    /// The places that nobody holds.
    pub free: nat,
    /// Every dial so far, the latest last.
    pub slots: Seq<Slot>,
    /// Whether the provider was stopped, so that no place is given out any more.
    pub closed: bool,
}

/// What can happen to dials and streams.
pub enum PlacesEvent {
    /// A dial starts.
    Start,
    /// Something happens to the dial at `index`.
    Step { index: int, event: DialEventView },
    /// The dial at `index` is cancelled, or its stream is dropped.
    Leave { index: int },
    /// The provider is stopped.
    Close,
}

/// Whether `event` can happen now. A dial is admitted only to a free place, and refused one only
/// when the provider was stopped: otherwise it waits.
pub open spec fn places_can(places: Places, event: PlacesEvent) -> bool {
    match event {
        PlacesEvent::Start => !places.closed,
        PlacesEvent::Step { index, event } => {
            &&& 0 <= index < places.slots.len()
            &&& is_pending(places.slots[index])
            &&& event == DialEventView::Admitted(true) ==> places.free > 0 && !places.closed
            &&& event == DialEventView::Admitted(false) ==> places.closed
        },
        PlacesEvent::Leave { index } => 0 <= index < places.slots.len() && places.slots[index] is Dial,
        PlacesEvent::Close => true,
    }
}

/// A slot takes another state, and with it takes or gives back a place.
pub open spec fn set_slot(places: Places, index: int, slot: Slot) -> Places {
    let held: int = if holds_place(places.slots[index]) {
        1
    } else {
        0
    };
    let holds: int = if holds_place(slot) {
        1
    } else {
        0
    };
    Places {
        free: (places.free + held - holds) as nat,
        slots: places.slots.update(index, slot),
        ..places
    }
}

/// What follows `event`, with the proxy at `host:port`. What cannot happen changes nothing.
pub open spec fn places_next(host: Seq<char>, port: u16, places: Places, event: PlacesEvent) -> Places {
    if !places_can(places, event) {
        places
    } else {
        match event {
            PlacesEvent::Start => Places {
                slots: places.slots.push(Slot::Dial(DialStageView::Acquire)),
                ..places
            },
            PlacesEvent::Step { index, event } => set_slot(
                places,
                index,
                Slot::Dial(dial_next(host, port, places.slots[index]->Dial_0, event)),
            ),
            PlacesEvent::Leave { index } => set_slot(places, index, Slot::Gone),
            PlacesEvent::Close => Places { closed: true, ..places },
        }
    }
}

/// A fresh provider: every place is free.
pub open spec fn places_start() -> Places {
    Places { free: MAX_STREAMS as nat, slots: seq![], closed: false }
}

/// What a fresh provider becomes through `events`.
pub open spec fn places_run(host: Seq<char>, port: u16, events: Seq<PlacesEvent>) -> Places
    decreases events.len(),
{
    if events.len() == 0 {
        places_start()
    } else {
        places_next(host, port, places_run(host, port, events.drop_last()), events.last())
    }
}

proof fn lemma_count_update(slots: Seq<Slot>, wanted: spec_fn(Slot) -> bool, index: int, slot: Slot)
    requires
        0 <= index < slots.len(),
    ensures
        count(slots.update(index, slot), wanted) + (if wanted(slots[index]) {
            1int
        } else {
            0
        }) == count(slots, wanted) + (if wanted(slot) {
            1int
        } else {
            0
        }),
    decreases slots.len(),
{
    let updated = slots.update(index, slot);
    if index == slots.len() - 1 {
        assert(updated.drop_last() =~= slots.drop_last());
    } else {
        assert(updated.drop_last() =~= slots.drop_last().update(index, slot));
        lemma_count_update(slots.drop_last(), wanted, index, slot);
    }
}

/// Live streams hold places, and where no dial is pending nothing else does.
proof fn lemma_live_holds(slots: Seq<Slot>)
    ensures
        streams_live(slots) <= places_held(slots),
        (forall|i: int| 0 <= i < slots.len() ==> !is_pending(#[trigger] slots[i])) ==> streams_live(
            slots,
        ) == places_held(slots),
    decreases slots.len(),
{
    if slots.len() > 0 {
        let rest = slots.drop_last();
        lemma_live_holds(rest);
        if forall|i: int| 0 <= i < slots.len() ==> !is_pending(#[trigger] slots[i]) {
            assert forall|i: int| 0 <= i < rest.len() implies !is_pending(#[trigger] rest[i]) by {
                assert(rest[i] == slots[i]);
            }
            assert(!is_pending(slots[slots.len() - 1]));
        }
    }
}

/// Whatever happens, every place is free or held by one dial or stream, so that there are never
/// more live streams than places; and when no dial is pending, the free places and the live streams
/// together are all the places that there are.
pub proof fn places_add_up(host: Seq<char>, port: u16, events: Seq<PlacesEvent>)
    ensures
        ({
            let places = places_run(host, port, events);
            &&& places.free + places_held(places.slots) == MAX_STREAMS
            &&& streams_live(places.slots) <= MAX_STREAMS
            &&& (forall|i: int| 0 <= i < places.slots.len() ==> !is_pending(#[trigger] places.slots[i]))
                ==> places.free + streams_live(places.slots) == MAX_STREAMS
        }),
    decreases events.len(),
{
    let wanted = |slot: Slot| holds_place(slot);
    if events.len() > 0 {
        let before = places_run(host, port, events.drop_last());
        places_add_up(host, port, events.drop_last());
        if places_can(before, events.last()) {
            match events.last() {
                PlacesEvent::Start => {
                    let started = Slot::Dial(DialStageView::Acquire);
                    assert(before.slots.push(started).drop_last() =~= before.slots);
                },
                PlacesEvent::Step { index, event } => {
                    let slot = Slot::Dial(
                        dial_next(host, port, before.slots[index]->Dial_0, event),
                    );
                    lemma_count_update(before.slots, wanted, index, slot);
                },
                PlacesEvent::Leave { index } => {
                    lemma_count_update(before.slots, wanted, index, Slot::Gone);
                },
                PlacesEvent::Close => {},
            }
        }
    }
    lemma_live_holds(places_run(host, port, events).slots);
}

/// A dial that fails, at whatever step, gives back the place that it held.
pub proof fn failed_dial_gives_its_place_back(
    host: Seq<char>,
    port: u16,
    places: Places,
    index: int,
    event: DialEventView,
)
    requires
        places_can(places, PlacesEvent::Step { index, event }),
        dial_next(host, port, places.slots[index]->Dial_0, event) is Failed,
    ensures
        ({
            let after = places_next(host, port, places, PlacesEvent::Step { index, event });
            &&& !holds_place(after.slots[index])
            &&& after.free == places.free + if holds_place(places.slots[index]) {
                1nat
            } else {
                0
            }
        }),
{
}

/// While no place is free, a dial without one sends nothing: whatever can happen to it, it goes on
/// waiting or fails.
pub proof fn dial_waits_for_a_place(
    host: Seq<char>,
    port: u16,
    places: Places,
    index: int,
    event: DialEventView,
)
    requires
        places.free == 0,
        places_can(places, PlacesEvent::Step { index, event }),
        places.slots[index] == Slot::Dial(DialStageView::Acquire),
    ensures
        ({
            let after = places_next(host, port, places, PlacesEvent::Step { index, event });
            &&& after.slots[index]->Dial_0 is Acquire || after.slots[index]->Dial_0 is Failed
            &&& after.free == 0
        }),
{
}

/// A stream that is dropped, or a dial that is cancelled, waiting or not, gives its place back, and
/// nothing else changes: every other dial and stream goes on as it was.
pub proof fn leaving_frees_the_place_and_nothing_else(
    host: Seq<char>,
    port: u16,
    places: Places,
    index: int,
)
    requires
        places_can(places, PlacesEvent::Leave { index }),
    ensures
        ({
            let after = places_next(host, port, places, PlacesEvent::Leave { index });
            &&& after.free == places.free + if holds_place(places.slots[index]) {
                1nat
            } else {
                0
            }
            &&& after.slots.len() == places.slots.len()
            &&& after.slots[index] is Gone
            &&& forall|other: int|
                0 <= other < places.slots.len() && other != index ==> #[trigger] after.slots[other]
                    == places.slots[other]
            &&& after.closed == places.closed
        }),
{
}

/// What a shutdown leaves of a provider whose sessions came about through `ops`: the sessions are
/// handed over to be stopped, the current one among them, and none is left; a dial that has not
/// ended fails. And what stopping leaves of any session, whatever is done to it later: it owns no
/// endpoint and no task, and every stream of it fails each read with room, each write of something,
/// each flush and each shutdown, whatever state the stream is in.
pub proof fn shutdown_revokes_everything<S, W, E, T>(
    ops: Seq<SessionsOp<S, W>>,
    session: SessionState<E, T>,
    later: Seq<SessionOp<T>>,
    reading: ReadState,
    writing: WriteState,
    room: usize,
    bytes: Seq<u8>,
    host: Seq<char>,
    port: u16,
    dial: DialStageView,
)
    requires
        room > 0,
        bytes.len() > 0,
        !dial_ended(dial),
    ensures
        ({
            let before = sessions_run(ops);
            let after = sessions_next(before, SessionsOp::Drain);
            &&& before.current matches Some(current) ==> before.kept.len() > 0
                && before.kept.last().0 == current
            &&& after.current is None
            &&& after.kept.len() == 0
        }),
        dial_next(host, port, dial, DialEventView::Stopped) == failed_dial(
            host,
            port,
            "provider stopped"@,
        ),
        ({
            let after = session_run(session_next(session, SessionOp::Stop), later);
            let stopped = after.stopped;
            &&& after.endpoint is None
            &&& after.driver is None
            &&& after.writers.len() == 0
            &&& read_next(reading, ReadEventView::Poll { room, stopped }).1 == ReadActionView::Fail(
                broken_view(),
            )
            &&& write_next(writing, WriteEventView::Write { bytes, stopped }).1 is Fail
            &&& write_next(writing, WriteEventView::Flush { stopped }).1 is Fail
            &&& write_next(writing, WriteEventView::Shutdown { stopped }).1 is Fail
        }),
{
    sessions_are_bounded_and_current_is_kept(ops);
    stop_is_final(session, later, false, false);
    let after = session_run(session_next(session, SessionOp::Stop), later);
    if after.driver is Some {
        assert(session_tasks(after).len() > 0);
    }
}

} // verus!
