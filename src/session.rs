use vstd::prelude::*;

use crate::registry::{Registry, RegistryState};

verus! {

/// Where a client's synchronisation loop stands.
#[derive(Debug, Clone, Copy, PartialEq, Eq, Structural)]
pub enum Phase {
    Validating,
    Waiting,
    Fetching,
    PushingFields,
    PushingPlayers,
    Closed,
}

/// What the loop around a session observed.
#[derive(Debug, Clone, Copy, PartialEq, Eq, Structural)]
pub enum Event {
    /// Whether the user is a current player of an open game.
    Validated(bool),
    /// The change signal fired; the snapshot has this version and this last
    /// change time for the session's game.
    Woken { version: u64, last_changed: Option<u64> },
    /// The writer side of the change signal is gone for good.
    SignalLost,
    /// Whether the board and the player list were read and serialised.
    Fetched(bool),
    /// Whether the last message went out.
    Sent(bool),
}

/// What the loop around a session must do next.
#[derive(Debug, Clone, Copy, PartialEq, Eq, Structural)]
pub enum Action {
    /// Block on the change signal.
    Wait,
    /// Read the board and the player list and serialise them.
    Fetch,
    /// Send the board.
    SendFields,
    /// Send the player list.
    SendPlayers,
    /// End the session and stop consuming the change signal.
    Close,
}

/// The state of a session: its game, its phase, the time as of which its
/// last push was read (the watermark), and the last signal version it saw.
pub struct SessionState {
    pub game_id: u128,
    pub phase: Phase,
    pub watermark: u64,
    pub seen: u64,
}

impl SessionState {
    /// The watermark never runs ahead of the versions the session has seen.
    pub open spec fn wf(self) -> bool {
        self.watermark <= self.seen
    }

    /// Moves to `phase` and asks for `action`.
    pub open spec fn go(self, phase: Phase, action: Action) -> (SessionState, Action) {
        (SessionState { phase, ..self }, action)
    }

    /// The transition of a session on one event.
    pub open spec fn next(self, e: Event) -> (SessionState, Action) {
        match (self.phase, e) {
            (Phase::Closed, _) => (self, Action::Close),
            (Phase::Validating, Event::Validated(true)) => self.go(Phase::Waiting, Action::Wait),
            (Phase::Waiting, Event::Woken { version, last_changed }) => {
                if version <= self.seen {
                    (self, Action::Wait)
                } else if last_changed matches Some(t) && t > self.watermark {
                    (
                        SessionState {
                            phase: Phase::Fetching,
                            watermark: version,
                            seen: version,
                            ..self
                        },
                        Action::Fetch,
                    )
                } else {
                    (SessionState { seen: version, ..self }, Action::Wait)
                }
            },
            (Phase::Fetching, Event::Fetched(true)) => self.go(
                Phase::PushingFields,
                Action::SendFields,
            ),
            (Phase::PushingFields, Event::Sent(true)) => self.go(
                Phase::PushingPlayers,
                Action::SendPlayers,
            ),
            (Phase::PushingPlayers, Event::Sent(true)) => self.go(Phase::Waiting, Action::Wait),
            _ => self.go(Phase::Closed, Action::Close),
        }
    }

    /// The state after a run of events.
    pub open spec fn run(self, events: Seq<Event>) -> SessionState
        decreases events.len(),
    {
        if events.len() == 0 {
            self
        } else {
            self.next(events[0]).0.run(events.drop_first())
        }
    }

    /// The watermarks as of which the session fetched, in order, over a run of events.
    pub open spec fn fetch_marks(self, events: Seq<Event>) -> Seq<u64>
        decreases events.len(),
    {
        if events.len() == 0 {
            Seq::empty()
        } else {
            let (s, a) = self.next(events[0]);
            let rest = s.fetch_marks(events.drop_first());
            if a == Action::Fetch {
                seq![s.watermark].add(rest)
            } else {
                rest
            }
        }
    }
}

/// The wake-up a reader gets from a snapshot of the registry, for `game`.
pub open spec fn wake_from(r: RegistryState, game: u128) -> Event {
    Event::Woken { version: r.clock as u64, last_changed: r.last_changed(game) }
}

/// One client's synchronisation loop, as a state machine: the loop around it
/// feeds it events and performs the actions it returns.
pub struct Session {
    game_id: u128,
    phase: Phase,
    watermark: u64,
    seen: u64,
}

impl View for Session {
    type V = SessionState;

    closed spec fn view(&self) -> SessionState {
        SessionState {
            game_id: self.game_id,
            phase: self.phase,
            watermark: self.watermark,
            seen: self.seen,
        }
    }
}

impl Session {
    #[verifier::type_invariant]
    spec fn inv(&self) -> bool {
        self@.wf()
    }

    /// A session for `game_id` that has yet to validate its user, has seen
    /// no version and has pushed nothing.
    pub fn new(game_id: u128) -> (s: Session)
        ensures
            s@ == (SessionState { game_id, phase: Phase::Validating, watermark: 0, seen: 0 }),
            s@.wf(),
    {
        Session { game_id, phase: Phase::Validating, watermark: 0, seen: 0 }
    }

    pub fn game_id(&self) -> (r: u128)
        ensures
            r == self@.game_id,
    {
        self.game_id
    }

    pub fn phase(&self) -> (r: Phase)
        ensures
            r == self@.phase,
    {
        self.phase
    }

    pub fn watermark(&self) -> (r: u64)
        ensures
            r == self@.watermark,
    {
        self.watermark
    }

    /// Takes one event and returns the next action.
    pub fn step(&mut self, event: Event) -> (a: Action)
        ensures
            (final(self)@, a) == old(self)@.next(event),
            final(self)@.wf(),
            final(self)@.game_id == old(self)@.game_id,
            a == Action::Fetch ==> final(self)@.watermark > old(self)@.watermark,
            a != Action::Fetch ==> final(self)@.watermark == old(self)@.watermark,
            old(self)@.phase == Phase::Closed ==> a == Action::Close && final(self)@ == old(self)@,
    {
        proof {
            use_type_invariant(&*self);
        }
        let (phase, action) = match (self.phase, event) {
            (Phase::Closed, _) => (Phase::Closed, Action::Close),
            (Phase::Validating, Event::Validated(true)) => (Phase::Waiting, Action::Wait),
            (Phase::Waiting, Event::Woken { version, last_changed }) => {
                if version <= self.seen {
                    (Phase::Waiting, Action::Wait)
                } else {
                    let relevant = match last_changed {
                        Some(t) => t > self.watermark,
                        None => false,
                    };
                    self.seen = version;
                    if relevant {
                        self.watermark = version;
                        (Phase::Fetching, Action::Fetch)
                    } else {
                        (Phase::Waiting, Action::Wait)
                    }
                }
            },
            (Phase::Fetching, Event::Fetched(true)) => (Phase::PushingFields, Action::SendFields),
            (Phase::PushingFields, Event::Sent(true)) => (
                Phase::PushingPlayers,
                Action::SendPlayers,
            ),
            (Phase::PushingPlayers, Event::Sent(true)) => (Phase::Waiting, Action::Wait),
            _ => (Phase::Closed, Action::Close),
        };
        self.phase = phase;
        action
    }

    /// Takes a wake-up of the change signal with the registry snapshot it
    /// carries, and returns the next action.
    pub fn wake(&mut self, snapshot: &Registry) -> (a: Action)
        ensures
            (final(self)@, a) == old(self)@.next(wake_from(snapshot@, old(self)@.game_id)),
    {
        let event = Event::Woken {
            version: snapshot.version(),
            last_changed: snapshot.last_changed(self.game_id),
        };
        self.step(event)
    }
}

/// Over any run of events, the watermarks as of which a session fetches rise
/// strictly, and all lie above the watermark it started from: a session never
/// pushes a state read as of a time at or before one it already pushed.
pub proof fn lemma_fetches_strictly_newer(s: SessionState, events: Seq<Event>)
    requires
        s.wf(),
    ensures
        forall|i: int|
            0 <= i < s.fetch_marks(events).len() ==> s.watermark < #[trigger] s.fetch_marks(
                events,
            )[i],
        forall|i: int, j: int|
            0 <= i < j < s.fetch_marks(events).len() ==> #[trigger] s.fetch_marks(events)[i]
                < #[trigger] s.fetch_marks(events)[j],
    decreases events.len(),
{
    if events.len() > 0 {
        let (t, a) = s.next(events[0]);
        let rest = events.drop_first();
        lemma_fetches_strictly_newer(t, rest);
        let tail = t.fetch_marks(rest);
        if a == Action::Fetch {
            let marks = s.fetch_marks(events);
            assert(marks == seq![t.watermark].add(tail));
            assert forall|i: int, j: int| 0 <= i < j < marks.len() implies #[trigger] marks[i]
                < #[trigger] marks[j] by {
                if i > 0 {
                    assert(marks[i] == tail[i - 1]);
                }
                assert(marks[j] == tail[j - 1]);
            }
            assert forall|i: int| 0 <= i < marks.len() implies s.watermark < #[trigger] marks[i] by {
                if i > 0 {
                    assert(marks[i] == tail[i - 1]);
                }
            }
        }
    }
}

/// Any number of changes to a game, then one wake-up of a reader of that game
/// that had caught up with the registry, give exactly one relevant wake-up:
/// the reader fetches with its watermark at the game's latest change time, and
/// once it has pushed, the same snapshot wakes it to nothing more.
pub proof fn lemma_changes_coalesce(r: RegistryState, s: SessionState, k: nat)
    requires
        r.wf(),
        s.wf(),
        s.phase == Phase::Waiting,
        s.seen <= r.clock,
        1 <= k,
        r.clock + k <= u64::MAX,
    ensures
        ({
            let latest = r.record_many(s.game_id, k);
            let wake = wake_from(latest, s.game_id);
            let (t, a) = s.next(wake);
            let pushed = t.run(seq![Event::Fetched(true), Event::Sent(true), Event::Sent(true)]);
            &&& a == Action::Fetch
            &&& latest.last_changed(s.game_id) == Some(t.watermark)
            &&& t.watermark == latest.clock
            &&& pushed.phase == Phase::Waiting
            &&& pushed.next(wake).1 == Action::Wait
        }),
{
    lemma_record_many_latest(r, s.game_id, k);
    let latest = r.record_many(s.game_id, k);
    let wake = wake_from(latest, s.game_id);
    let (t, a) = s.next(wake);
    assert(a == Action::Fetch && t.phase == Phase::Fetching && t.watermark == latest.clock);
    let evs = seq![Event::Fetched(true), Event::Sent(true), Event::Sent(true)];
    let t1 = t.next(Event::Fetched(true)).0;
    let t2 = t1.next(Event::Sent(true)).0;
    let t3 = t2.next(Event::Sent(true)).0;
    assert(evs.drop_first() =~= seq![Event::Sent(true), Event::Sent(true)]);
    assert(evs.drop_first().drop_first() =~= seq![Event::Sent(true)]);
    assert(evs.drop_first().drop_first().drop_first() =~= Seq::<Event>::empty());
    assert(t3.run(Seq::<Event>::empty()) == t3);
    assert(t2.run(seq![Event::Sent(true)]) == t3);
    assert(t1.run(seq![Event::Sent(true), Event::Sent(true)]) == t3);
    assert(t.run(evs) == t3);
    assert(t3.phase == Phase::Waiting && t3.seen == latest.clock);
}

proof fn lemma_record_many_latest(r: RegistryState, game: u128, k: nat)
    requires
        1 <= k,
        r.clock + k <= u64::MAX,
    ensures
        r.record_many(game, k).clock == r.clock + k,
        r.record_many(game, k).last_changed(game) == Some((r.clock + k) as u64),
    decreases k,
{
    let prev = r.record_many(game, (k - 1) as nat);
    if k > 1 {
        lemma_record_many_latest(r, game, (k - 1) as nat);
    } else {
        assert(prev == r);
    }
    assert(r.record_many(game, k) == prev.record(game));
    assert(prev.record(game).entries.contains_key(game));
}

} // verus!
