//! The QUIC sessions of a provider: which one a dial uses, and what a session leaves to clean up.
use vstd::prelude::*;

verus! {

/// Sessions that a provider keeps, including those draining after GOAWAY.
pub const MAX_SESSIONS: usize = 4;

/// The items whose flag is set, in order.
pub open spec fn flagged<T>(items: Seq<T>, flags: Seq<bool>) -> Seq<T>
    recommends
        items.len() == flags.len(),
    decreases items.len(),
{
    if items.len() == 0 {
        seq![]
    } else if flags[0] {
        seq![items[0]] + flagged(items.drop_first(), flags.drop_first())
    } else {
        flagged(items.drop_first(), flags.drop_first())
    }
}

/// No item comes from nowhere, and setting every flag keeps every item.
pub proof fn lemma_flagged<T>(items: Seq<T>, flags: Seq<bool>)
    requires
        items.len() == flags.len(),
    ensures
        flagged(items, flags).len() <= items.len(),
        forall|i: int|
            0 <= i < flagged(items, flags).len() ==> items.contains(
                #[trigger] flagged(items, flags)[i],
            ),
        (forall|i: int| 0 <= i < flags.len() ==> #[trigger] flags[i]) ==> flagged(items, flags)
            == items,
    decreases items.len(),
{
    if items.len() > 0 {
        let rest = items.drop_first();
        let kept = flagged(rest, flags.drop_first());
        lemma_flagged(rest, flags.drop_first());
        assert forall|i: int| 0 <= i < flagged(items, flags).len() implies items.contains(
            #[trigger] flagged(items, flags)[i],
        ) by {
            if flags[0] && i == 0 {
                assert(items[0] == flagged(items, flags)[0]);
            } else {
                let j: int = if flags[0] {
                    i - 1
                } else {
                    i
                };
                assert(kept[j] == flagged(items, flags)[i]);
                let k = choose|k: int| 0 <= k < rest.len() && rest[k] == kept[j];
                assert(items[k + 1] == rest[k]);
            }
        }
        if forall|i: int| 0 <= i < flags.len() ==> #[trigger] flags[i] {
            let others = flags.drop_first();
            assert forall|i: int| 0 <= i < others.len() implies #[trigger] others[i] by {
                assert(others[i] == flags[i + 1]);
            }
            assert(flagged(items, flags) =~= items);
        }
    } else {
        assert(flagged(items, flags) =~= items);
    }
}

/// Drops the items whose flag is not set.
fn keep_flagged<T>(items: Vec<T>, flags: &Vec<bool>) -> (kept: Vec<T>)
    requires
        items@.len() == flags@.len(),
    ensures
        kept@ == flagged(items@, flags@),
{
    let ghost all = items@;
    let mut kept = items;
    let mut i: usize = kept.len();
    proof {
        assert(all.take(i as int) + flagged(all.skip(i as int), flags@.skip(i as int)) =~= all);
    }
    while i > 0
        invariant
            all.len() == flags@.len(),
            i <= all.len(),
            kept@ == all.take(i as int) + flagged(all.skip(i as int), flags@.skip(i as int)),
        decreases i,
    {
        i = i - 1;
        proof {
            assert(all.skip(i as int).drop_first() =~= all.skip(i + 1));
            assert(flags@.skip(i as int).drop_first() =~= flags@.skip(i + 1));
            assert(all.take(i + 1) =~= all.take(i as int) + seq![all[i as int]]);
        }
        if !flags[i] {
            kept.remove(i);
        }
        assert(kept@ =~= all.take(i as int) + flagged(all.skip(i as int), flags@.skip(i as int)));
    }
    assert(all.skip(0) =~= all);
    assert(flags@.skip(0) =~= flags@);
    kept
}

/// Keeping flagged items and looking at one part of each can be done in either order.
proof fn lemma_flagged_references<S, W>(kept: Seq<(S, W)>, flags: Seq<bool>)
    requires
        kept.len() == flags.len(),
    ensures
        flagged(references_of(kept), flags) == references_of(flagged(kept, flags)),
    decreases kept.len(),
{
    if kept.len() > 0 {
        let rest = kept.drop_first();
        lemma_flagged_references(rest, flags.drop_first());
        assert(references_of(kept).drop_first() =~= references_of(rest));
        assert(flagged(references_of(kept), flags) =~= references_of(flagged(kept, flags)));
    } else {
        assert(flagged(references_of(kept), flags) =~= references_of(flagged(kept, flags)));
    }
}

/// Whether new streams may be opened on a session: it is not retiring, its connection is not
/// closed, and its driver is there and still runs.
pub open spec fn session_usable(
    retiring: bool,
    connection_closed: bool,
    driven: bool,
    driver_finished: bool,
) -> bool {
    !retiring && !connection_closed && driven && !driver_finished
}

/// What a session owns, and whether it is retiring or stopped.
pub struct SessionState<E, T> {
    /// The endpoint, as long as the session owns it.
    pub endpoint: Option<E>,
    /// The task that drives the connection, as long as the session owns it.
    pub driver: Option<T>,
    /// The tasks that write to streams of the session, the latest last.
    pub writers: Seq<T>,
    /// Whether no new streams are opened on the session any more.
    pub retiring: bool,
    /// Whether the session was stopped.
    pub stopped: bool,
}

/// What is done to a session.
pub enum SessionOp<T> {
    /// Open no new streams any more.
    Retire,
    /// Take on a writer task. `running` tells which of the others have not finished.
    Register { running: Seq<bool>, task: T },
    /// Stop for good.
    Stop,
}

/// A stopped session owns nothing.
pub open spec fn session_well_formed<E, T>(state: SessionState<E, T>) -> bool {
    state.stopped ==> state.endpoint is None && state.driver is None && state.writers.len() == 0
}

/// The tasks that a session owns, the driver last.
pub open spec fn session_tasks<E, T>(state: SessionState<E, T>) -> Seq<T> {
    match state.driver {
        Some(driver) => state.writers.push(driver),
        None => state.writers,
    }
}

/// What a session becomes through `op`. A stopped session takes no writer on.
pub open spec fn session_next<E, T>(state: SessionState<E, T>, op: SessionOp<T>) -> SessionState<
    E,
    T,
> {
    match op {
        SessionOp::Retire => SessionState { retiring: true, ..state },
        SessionOp::Register { running, task } => if state.stopped {
            state
        } else {
            SessionState { writers: flagged(state.writers, running).push(task), ..state }
        },
        SessionOp::Stop => SessionState {
            endpoint: None,
            driver: None,
            writers: seq![],
            stopped: true,
            ..state
        },
    }
}

/// One QUIC session: the endpoint `E` it runs on and the tasks `T` that serve it.
pub struct Session<E, T> {
    endpoint: Option<E>,
    driver: Option<T>,
    writers: Vec<T>,
    retiring: bool,
    stopped: bool,
}

impl<E, T> Session<E, T> {
    /// What the session owns, and whether it is retiring or stopped.
    pub closed spec fn state(&self) -> SessionState<E, T> {
        SessionState {
            endpoint: self.endpoint,
            driver: self.driver,
            writers: self.writers@,
            retiring: self.retiring,
            stopped: self.stopped,
        }
    }

    #[verifier::type_invariant]
    closed spec fn well_formed(&self) -> bool {
        session_well_formed(self.state())
    }

    /// A session on `endpoint`, driven by `driver`, without streams.
    pub fn new(endpoint: E, driver: T) -> (session: Self)
        ensures
            session.state() == (SessionState {
                endpoint: Some(endpoint),
                driver: Some(driver),
                writers: seq![],
                retiring: false,
                stopped: false,
            }),
    {
        Session {
            endpoint: Some(endpoint),
            driver: Some(driver),
            writers: Vec::new(),
            retiring: false,
            stopped: false,
        }
    }

    /// Whether new streams may be opened, given whether the connection is closed and the driver
    /// has finished.
    pub fn usable(&self, connection_closed: bool, driver_finished: bool) -> (usable: bool)
        ensures
            usable == session_usable(
                self.state().retiring,
                connection_closed,
                self.state().driver is Some,
                driver_finished,
            ),
            usable ==> !self.state().stopped,
    {
        proof {
            use_type_invariant(self);
        }
        !self.retiring && !connection_closed && self.driver.is_some() && !driver_finished
    }

    /// The task that drives the connection.
    pub fn driver_task(&self) -> (driver: Option<&T>)
        ensures
            driver == match self.state().driver {
                Some(task) => Some(&task),
                None => None,
            },
            session_well_formed(self.state()),
    {
        proof {
            use_type_invariant(self);
        }
        self.driver.as_ref()
    }

    /// The tasks that write to streams.
    pub fn writer_tasks(&self) -> (writers: &Vec<T>)
        ensures
            writers@ == self.state().writers,
            session_well_formed(self.state()),
    {
        proof {
            use_type_invariant(self);
        }
        &self.writers
    }

    /// Whether the session was stopped.
    pub fn is_stopped(&self) -> (stopped: bool)
        ensures
            stopped == self.state().stopped,
    {
        self.stopped
    }

    /// Opens no new streams any more; those that are open stay.
    pub fn retire(&mut self)
        ensures
            final(self).state() == session_next(old(self).state(), SessionOp::Retire),
    {
        proof {
            use_type_invariant(&*self);
        }
        self.retiring = true;
    }

    /// Takes on the task that writes to a new stream, and forgets the tasks that have finished.
    /// A stopped session takes nothing on: the task comes back.
    pub fn register_writer(&mut self, running: &Vec<bool>, task: T) -> (registered: Result<(), T>)
        requires
            running@.len() == old(self).state().writers.len(),
        ensures
            registered == if old(self).state().stopped {
                Err(task)
            } else {
                Ok(())
            },
            final(self).state() == session_next(
                old(self).state(),
                SessionOp::Register { running: running@, task },
            ),
    {
        proof {
            use_type_invariant(&*self);
        }
        if self.stopped {
            return Err(task);
        }
        let mut writers: Vec<T> = Vec::new();
        std::mem::swap(&mut writers, &mut self.writers);
        let mut kept = keep_flagged(writers, running);
        kept.push(task);
        self.writers = kept;
        Ok(())
    }

    /// Stops the session for good and hands over what it owned: its endpoint, and its tasks with
    /// the driver last.
    pub fn stop(&mut self) -> (owned: (Option<E>, Vec<T>))
        ensures
            owned.0 == old(self).state().endpoint,
            owned.1@ == session_tasks(old(self).state()),
            final(self).state() == session_next(old(self).state(), SessionOp::Stop),
    {
        proof {
            use_type_invariant(&*self);
        }
        let mut endpoint: Option<E> = None;
        std::mem::swap(&mut endpoint, &mut self.endpoint);
        let mut tasks: Vec<T> = Vec::new();
        std::mem::swap(&mut tasks, &mut self.writers);
        let mut driver: Option<T> = None;
        std::mem::swap(&mut driver, &mut self.driver);
        if let Some(driver) = driver {
            tasks.push(driver);
        }
        self.stopped = true;
        assert(self.writers@ =~= Seq::<T>::empty());
        (endpoint, tasks)
    }
}

/// What a session becomes through `ops`.
pub open spec fn session_run<E, T>(
    state: SessionState<E, T>,
    ops: Seq<SessionOp<T>>,
) -> SessionState<E, T>
    decreases ops.len(),
{
    if ops.len() == 0 {
        state
    } else {
        session_next(session_run(state, ops.drop_last()), ops.last())
    }
}

/// Once a session was stopped, whatever is done to it later: it stays stopped, it owns nothing,
/// so that stopping it again hands nothing over and no writer is left behind, and it is not
/// usable.
pub proof fn stop_is_final<E, T>(
    state: SessionState<E, T>,
    ops: Seq<SessionOp<T>>,
    connection_closed: bool,
    driver_finished: bool,
)
    ensures
        ({
            let later = session_run(session_next(state, SessionOp::Stop), ops);
            &&& later.stopped
            &&& later.endpoint is None
            &&& session_tasks(later) == Seq::<T>::empty()
            &&& !session_usable(
                later.retiring,
                connection_closed,
                later.driver is Some,
                driver_finished,
            )
        }),
    decreases ops.len(),
{
    if ops.len() > 0 {
        stop_is_final(state, ops.drop_last(), connection_closed, driver_finished);
    }
}

/// What a dial does for a session.
#[derive(Clone, Copy, Debug, PartialEq, Eq, Structural)]
pub enum Admission {
    /// Use the current session.
    Reuse,
    /// Make a new one.
    Connect,
    /// Give up: too many sessions are still draining.
    LimitReached,
}

/// Whether a dial reuses the current session: there is one, and it is usable.
pub open spec fn is_reused(current: bool, usable: bool) -> bool {
    current && usable
}

/// What a dial does that reuses no session, while this many are alive.
pub open spec fn admission(alive: nat) -> Admission {
    if alive >= MAX_SESSIONS {
        Admission::LimitReached
    } else {
        Admission::Connect
    }
}

/// The sessions of a provider.
pub struct SessionsState<S, W> {
    /// The session that dials use.
    pub current: Option<S>,
    /// The sessions that may still be alive, each with its reference, the latest last.
    pub kept: Seq<(S, W)>,
    /// Whether the provider was stopped.
    pub stopped: bool,
}

/// The references to kept sessions.
pub open spec fn references_of<S, W>(kept: Seq<(S, W)>) -> Seq<W> {
    Seq::new(kept.len(), |i: int| kept[i].1)
}

/// No more than the allowed number of sessions are kept, the session that dials use is the latest
/// of them, and a stopped provider has none.
pub open spec fn sessions_well_formed<S, W>(state: SessionsState<S, W>) -> bool {
    &&& state.kept.len() <= MAX_SESSIONS
    &&& state.current matches Some(session) ==> state.kept.len() > 0 && state.kept.last().0
        == session
    &&& state.stopped ==> state.current is None && state.kept.len() == 0
}

/// What is done to the sessions of a provider.
pub enum SessionsOp<S, W> {
    /// Keep the current session if it is usable.
    Keep { usable: bool },
    /// Forget the sessions that are not alive.
    Select { alive: Seq<bool> },
    /// Take a new session on, unless the provider is stopping.
    Register { session: S, reference: W, stopping: bool },
    /// Stop for good.
    Drain,
}

/// Whether `op` can be done now: dead sessions are forgotten only when none is current, and a new
/// one is taken on only when there is room.
pub open spec fn sessions_can<S, W>(state: SessionsState<S, W>, op: SessionsOp<S, W>) -> bool {
    match op {
        SessionsOp::Select { alive } => state.current is None && alive.len() == state.kept.len(),
        SessionsOp::Register { .. } => state.kept.len() < MAX_SESSIONS,
        _ => true,
    }
}

/// What the sessions become through `op`.
pub open spec fn sessions_next<S, W>(
    state: SessionsState<S, W>,
    op: SessionsOp<S, W>,
) -> SessionsState<S, W> {
    match op {
        SessionsOp::Keep { usable } => if is_reused(state.current is Some, usable) {
            state
        } else {
            SessionsState { current: None, ..state }
        },
        SessionsOp::Select { alive } => SessionsState {
            kept: flagged(state.kept, alive),
            ..state
        },
        SessionsOp::Register { session, reference, stopping } => if state.stopped || stopping {
            state
        } else {
            SessionsState {
                current: Some(session),
                kept: state.kept.push((session, reference)),
                ..state
            }
        },
        SessionsOp::Drain => SessionsState { current: None, kept: seq![], stopped: true },
    }
}

/// A provider without sessions.
pub open spec fn sessions_start<S, W>() -> SessionsState<S, W> {
    SessionsState { current: None, kept: seq![], stopped: false }
}

/// The sessions of a provider: the one that dials use, `S`, and a weak reference `W` to every
/// session that may still be alive.
pub struct Sessions<S, W> {
    current: Option<S>,
    all: Vec<W>,
    kept: Ghost<Seq<(S, W)>>,
    stopped: bool,
}

impl<S, W> Sessions<S, W> {
    /// The sessions.
    pub closed spec fn state(&self) -> SessionsState<S, W> {
        SessionsState { current: self.current, kept: self.kept@, stopped: self.stopped }
    }

    #[verifier::type_invariant]
    closed spec fn well_formed(&self) -> bool {
        &&& sessions_well_formed(self.state())
        &&& self.all@ == references_of(self.kept@)
    }

    /// No sessions yet.
    pub fn new() -> (sessions: Self)
        ensures
            sessions.state() == sessions_start::<S, W>(),
    {
        let all: Vec<W> = Vec::new();
        assert(all@ =~= references_of(Seq::<(S, W)>::empty()));
        Sessions { current: None, all, kept: Ghost(Seq::empty()), stopped: false }
    }

    /// The session that dials use.
    pub fn current_session(&self) -> (current: Option<&S>)
        ensures
            current == match self.state().current {
                Some(session) => Some(&session),
                None => None,
            },
            sessions_well_formed(self.state()),
    {
        proof {
            use_type_invariant(self);
        }
        self.current.as_ref()
    }

    /// References to the sessions that may still be alive; never more than the allowed number.
    pub fn references(&self) -> (all: &Vec<W>)
        ensures
            all@ == references_of(self.state().kept),
            sessions_well_formed(self.state()),
    {
        proof {
            use_type_invariant(self);
        }
        &self.all
    }

    /// Keeps the current session for a dial if there is one and it is `usable`, and otherwise gives
    /// it up.
    pub fn keep_current(&mut self, usable: bool) -> (kept: bool)
        ensures
            kept == is_reused(old(self).state().current is Some, usable),
            final(self).state() == sessions_next(old(self).state(), SessionsOp::Keep { usable }),
    {
        proof {
            use_type_invariant(&*self);
        }
        if self.current.is_some() && usable {
            return true;
        }
        self.current = None;
        false
    }

    /// Decides what a dial does that reuses no session. `alive` tells which of the sessions still
    /// are, now that the current one was given up; the others are forgotten. A new session may be
    /// made only while there is room for it.
    pub fn select(&mut self, alive: &Vec<bool>) -> (selected: Admission)
        requires
            old(self).state().current is None,
            alive@.len() == old(self).state().kept.len(),
        ensures
            selected == admission(final(self).state().kept.len()),
            final(self).state() == sessions_next(
                old(self).state(),
                SessionsOp::Select { alive: alive@ },
            ),
    {
        proof {
            use_type_invariant(&*self);
            lemma_flagged(self.kept@, alive@);
            lemma_flagged_references(self.kept@, alive@);
        }
        let mut before = Sessions::new();
        std::mem::swap(&mut before, self);
        let Sessions { current, all, kept, stopped } = before;
        let all = keep_flagged(all, alive);
        let count: usize = all.len();
        *self = Sessions { current, all, kept: Ghost(flagged(kept@, alive@)), stopped };
        if count >= MAX_SESSIONS {
            Admission::LimitReached
        } else {
            Admission::Connect
        }
    }

    /// Whether there is room for another session.
    pub fn has_room(&self) -> (room: bool)
        ensures
            room == (self.state().kept.len() < MAX_SESSIONS),
    {
        proof {
            use_type_invariant(self);
        }
        self.all.len() < MAX_SESSIONS
    }

    /// Takes on a new session as the one that dials use, unless the provider is stopped.
    pub fn register(&mut self, session: S, reference: W, stopping: bool) -> (registered: bool)
        requires
            old(self).state().kept.len() < MAX_SESSIONS,
        ensures
            registered == (!old(self).state().stopped && !stopping),
            final(self).state() == sessions_next(
                old(self).state(),
                SessionsOp::Register { session, reference, stopping },
            ),
    {
        proof {
            use_type_invariant(&*self);
        }
        if self.stopped || stopping {
            return false;
        }
        let mut before = Sessions::new();
        std::mem::swap(&mut before, self);
        let Sessions { current: _, mut all, kept, stopped } = before;
        let ghost pair = (session, reference);
        all.push(reference);
        assert(all@ =~= references_of(kept@.push(pair)));
        *self = Sessions { current: Some(session), all, kept: Ghost(kept@.push(pair)), stopped };
        true
    }

    /// Stops the provider for good and hands over the references to its sessions, the one that
    /// dials used among them.
    pub fn drain(&mut self) -> (all: Vec<W>)
        ensures
            all@ == references_of(old(self).state().kept),
            sessions_well_formed(old(self).state()),
            final(self).state() == sessions_next(old(self).state(), SessionsOp::Drain),
    {
        proof {
            use_type_invariant(&*self);
        }
        let mut before = Sessions::new();
        proof {
            use_type_invariant(&before);
        }
        std::mem::swap(&mut before, self);
        self.stopped = true;
        before.all
    }
}

/// What a provider's sessions become through `ops`. What cannot be done changes nothing.
pub open spec fn sessions_run<S, W>(ops: Seq<SessionsOp<S, W>>) -> SessionsState<S, W>
    decreases ops.len(),
{
    if ops.len() == 0 {
        sessions_start()
    } else {
        let before = sessions_run(ops.drop_last());
        if sessions_can(before, ops.last()) {
            sessions_next(before, ops.last())
        } else {
            before
        }
    }
}

/// Whatever is done to a provider's sessions: at most the allowed number are kept, those that are
/// draining included; the session that dials use is among them, so that a shutdown reaches it;
/// and after a shutdown there are none.
pub proof fn sessions_are_bounded_and_current_is_kept<S, W>(ops: Seq<SessionsOp<S, W>>)
    ensures
        sessions_well_formed(sessions_run(ops)),
    decreases ops.len(),
{
    if ops.len() > 0 {
        let before = sessions_run(ops.drop_last());
        sessions_are_bounded_and_current_is_kept(ops.drop_last());
        if let SessionsOp::Select { alive } = ops.last() {
            if sessions_can(before, ops.last()) {
                lemma_flagged(before.kept, alive);
            }
        }
    }
}

/// A provider that was stopped stays stopped, and takes no session on any more.
pub proof fn stopped_provider_takes_no_session<S, W>(
    ops: Seq<SessionsOp<S, W>>,
    op: SessionsOp<S, W>,
)
    requires
        sessions_run(ops).stopped,
        sessions_can(sessions_run(ops), op),
    ensures
        sessions_next(sessions_run(ops), op) == sessions_run(ops),
{
    sessions_are_bounded_and_current_is_kept(ops);
    let state = sessions_run(ops);
    assert(sessions_next(state, op).kept =~= state.kept);
}

/// What the sessions become when this many dials look for one in turn, each finding the current
/// session usable.
pub open spec fn after_dials<S, W>(state: SessionsState<S, W>, dials: nat) -> SessionsState<S, W>
    decreases dials,
{
    if dials == 0 {
        state
    } else {
        sessions_next(after_dials(state, (dials - 1) as nat), SessionsOp::Keep { usable: true })
    }
}

/// However many dials look for a session in turn after one was taken on, as long as it stays
/// usable: each of them finds that one, and nothing changes.
pub proof fn later_dials_share_the_session<S, W>(
    state: SessionsState<S, W>,
    session: S,
    reference: W,
    dials: nat,
)
    requires
        !state.stopped,
    ensures
        ({
            let taken = sessions_next(
                state,
                SessionsOp::Register { session, reference, stopping: false },
            );
            &&& taken.current == Some(session)
            &&& after_dials(taken, dials) == taken
            &&& is_reused(after_dials(taken, dials).current is Some, true)
        }),
    decreases dials,
{
    if dials > 0 {
        later_dials_share_the_session(state, session, reference, (dials - 1) as nat);
    }
}

/// A session that was retired, whose connection is closed, or whose driver is gone is never used
/// for a later dial, which then makes a new session or fails.
pub proof fn lost_session_is_never_reused(
    retiring: bool,
    connection_closed: bool,
    driven: bool,
    driver_finished: bool,
    current: bool,
)
    requires
        retiring || connection_closed || !driven || driver_finished,
    ensures
        !is_reused(
            current,
            session_usable(retiring, connection_closed, driven, driver_finished),
        ),
        forall|alive: nat| #[trigger]
            admission(alive) != Admission::Reuse && (admission(alive) == Admission::Connect <==> alive
                < MAX_SESSIONS),
{
}

/// A healthy current session is reused, however many others are alive.
pub proof fn healthy_session_is_reused()
    ensures
        is_reused(true, session_usable(false, false, true, false)),
{
}

/// Keeping flagged items works item by item: an item whose flag is set stays, one whose flag is not
/// set goes, and what becomes of a list is what becomes of its parts, in order.
pub proof fn flags_decide_item_by_item<T>(
    items: Seq<T>,
    flags: Seq<bool>,
    more: Seq<T>,
    more_flags: Seq<bool>,
    item: T,
)
    requires
        items.len() == flags.len(),
        more.len() == more_flags.len(),
    ensures
        flagged(Seq::<T>::empty(), Seq::<bool>::empty()) == Seq::<T>::empty(),
        flagged(seq![item], seq![true]) == seq![item],
        flagged(seq![item], seq![false]) == Seq::<T>::empty(),
        flagged(items + more, flags + more_flags) == flagged(items, flags) + flagged(
            more,
            more_flags,
        ),
    decreases items.len(),
{
    reveal_with_fuel(flagged, 2);
    assert(seq![item].drop_first() =~= Seq::<T>::empty());
    assert(flagged(seq![item], seq![true]) =~= seq![item]);
    assert(flagged(seq![item], seq![false]) =~= Seq::<T>::empty());
    if items.len() == 0 {
        assert(items + more =~= more);
        assert(flags + more_flags =~= more_flags);
        assert(flagged(items, flags) + flagged(more, more_flags) =~= flagged(more, more_flags));
    } else {
        let rest = items.drop_first();
        let rest_flags = flags.drop_first();
        flags_decide_item_by_item(rest, rest_flags, more, more_flags, item);
        assert((items + more).drop_first() =~= rest + more);
        assert((flags + more_flags).drop_first() =~= rest_flags + more_flags);
        assert((items + more)[0] == items[0]);
        assert((flags + more_flags)[0] == flags[0]);
        assert(flagged(items + more, flags + more_flags) =~= flagged(items, flags) + flagged(
            more,
            more_flags,
        ));
    }
}

/// A session is usable unless it is retiring, its connection is closed, it has no driver, or its
/// driver has finished; and a new session may be made exactly while fewer than four are alive.
pub proof fn use_and_admission_have_their_conditions(
    retiring: bool,
    connection_closed: bool,
    driven: bool,
    driver_finished: bool,
    current: bool,
    usable: bool,
    alive: nat,
)
    ensures
        !session_usable(retiring, connection_closed, driven, driver_finished) <==> retiring
            || connection_closed || !driven || driver_finished,
        is_reused(current, usable) <==> current && usable,
        admission(alive) == Admission::Connect <==> alive <= 3,
        admission(alive) == Admission::LimitReached <==> alive >= 4,
{
}

/// What each thing done to a session changes, and that it changes nothing else.
pub proof fn sessions_change_as_told<E, T>(
    state: SessionState<E, T>,
    running: Seq<bool>,
    task: T,
)
    ensures
        ({
            let retired = session_next(state, SessionOp::Retire);
            &&& retired.retiring
            &&& retired.endpoint == state.endpoint
            &&& retired.driver == state.driver
            &&& retired.writers == state.writers
            &&& retired.stopped == state.stopped
        }),
        ({
            let taken = session_next(state, SessionOp::Register { running, task });
            &&& state.stopped ==> taken == state
            &&& !state.stopped ==> {
                &&& taken.writers.len() > 0
                &&& taken.writers.last() == task
                &&& taken.writers.drop_last() == flagged(state.writers, running)
            }
            &&& taken.endpoint == state.endpoint
            &&& taken.driver == state.driver
            &&& taken.retiring == state.retiring
            &&& taken.stopped == state.stopped
        }),
        ({
            let over = session_next(state, SessionOp::Stop);
            &&& over.stopped
            &&& over.endpoint is None
            &&& over.driver is None
            &&& over.writers.len() == 0
            &&& over.retiring == state.retiring
        }),
        state.driver matches Some(driver) ==> session_tasks(state).len() == state.writers.len() + 1
            && session_tasks(state).last() == driver && session_tasks(state).drop_last()
            == state.writers,
        state.driver is None ==> session_tasks(state) == state.writers,
{
    let taken = session_next(state, SessionOp::Register { running, task });
    if !state.stopped {
        assert(taken.writers.drop_last() =~= flagged(state.writers, running));
    }
    if let Some(driver) = state.driver {
        assert(session_tasks(state).drop_last() =~= state.writers);
    }
}

/// What each thing done to the sessions of a provider changes, and that it changes nothing else: a
/// usable session stays, an unusable one is given up, the dead are forgotten, a new session becomes
/// the current one and the latest of those kept, and a stop leaves none.
pub proof fn provider_sessions_change_as_told<S, W>(
    state: SessionsState<S, W>,
    usable: bool,
    alive: Seq<bool>,
    session: S,
    reference: W,
    stopping: bool,
)
    ensures
        ({
            let after = sessions_next(state, SessionsOp::Keep { usable });
            &&& after.current == if usable {
                state.current
            } else {
                None
            }
            &&& after.kept == state.kept
            &&& after.stopped == state.stopped
        }),
        ({
            let after = sessions_next(state, SessionsOp::Select { alive });
            &&& after.current == state.current
            &&& after.kept == flagged(state.kept, alive)
            &&& after.stopped == state.stopped
        }),
        ({
            let after = sessions_next(
                state,
                SessionsOp::Register { session, reference, stopping },
            );
            &&& state.stopped || stopping ==> after == state
            &&& !state.stopped && !stopping ==> {
                &&& after.current == Some(session)
                &&& after.kept.len() == state.kept.len() + 1
                &&& after.kept.last() == (session, reference)
                &&& after.kept.drop_last() == state.kept
                &&& !after.stopped
            }
        }),
        ({
            let after = sessions_next(state, SessionsOp::Drain);
            &&& after.current is None
            &&& after.kept.len() == 0
            &&& after.stopped
        }),
        references_of(state.kept).len() == state.kept.len(),
        forall|i: int|
            0 <= i < state.kept.len() ==> #[trigger] references_of(state.kept)[i] == state.kept[i].1,
        sessions_start::<S, W>().current is None,
        sessions_start::<S, W>().kept.len() == 0,
        !sessions_start::<S, W>().stopped,
        MAX_SESSIONS == 4,
{
    let after = sessions_next(state, SessionsOp::Register { session, reference, stopping });
    if !state.stopped && !stopping {
        assert(after.kept.drop_last() =~= state.kept);
    }
}

} // verus!
