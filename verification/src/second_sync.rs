//! Second-boundary synchronisation from the timestamps of falling edges.
//!
//! The start of every second is marked by a falling edge, but so is every
//! disturbance on the line. To find the phase of the second boundary, the
//! synchroniser keeps a bounded history of falling-edge timestamps. A new edge
//! that lies a whole number of seconds after an earlier one yields a
//! candidate. The candidate is promoted to a lock only once further edges,
//! each a whole number of seconds after the one before, have confirmed it
//! inside the validation window; a candidate that is not confirmed in time is
//! dropped. A lock that is not confirmed for a long time is dropped as well,
//! and acquisition starts over.
//!
//! Timestamps are milliseconds on a wrapping 32-bit counter, so every
//! comparison goes through the elapsed time between two of them.
//!
//! The tolerance is wide enough for timestamps taken by polling the line
//! every 10 ms. That bounds what the synchroniser can tell apart: it is meant
//! for a debounced line with a few stray edges per second, where a stray edge
//! rarely lies a whole second after another one. The history itself holds
//! three seconds of a hundred edges each, so that a partner is not pushed out
//! by a burst of disturbances.
//!
//! One candidate is held at a time. Two stray edges a whole second apart that
//! come first hold it until the validation window has passed, and the signal
//! is acquired after that.

use vstd::prelude::*;
use crate::timestamp_ring::{
    appended, elapsed_ms, lemma_elapsed_adds, spec_elapsed_ms, TimestampRing, HISTORY_CAPACITY,
};

verus! {

/// Length of a second in milliseconds.
pub const SECOND_MS: u32 = 1000;

/// How far from a whole number of seconds a gap between two edges may be.
pub const PHASE_TOLERANCE_MS: u32 = 10;

/// How far back in the history a partner for a new edge is looked for.
pub const OBSERVATION_WINDOW_MS: u32 = 3000;

/// How long after it was first seen a candidate may still be confirmed.
pub const VALIDATION_WINDOW_MS: u32 = 6000;

/// Number of confirming edges that promote a candidate to a lock.
pub const REQUIRED_CORROBORATIONS: u32 = 5;

/// How long a lock survives without a confirming edge.
pub const LOCK_TIMEOUT_MS: u32 = 10000;

/// Direction of a level change on the signal line.
#[derive(Clone, Copy, Debug, PartialEq, Eq, Structural)]
pub enum Edge {
    Rising,
    Falling,
    /// Both directions at once; no single transition has this kind.
    RisingFalling,
}

#[derive(Clone, Copy, Debug, PartialEq, Eq, Structural)]
pub enum SecondSyncError {
    /// The transition was neither a rising nor a falling edge.
    WrongTransition,
}

/// Progress of the synchronisation. `phase` is the millisecond offset within
/// the second at which falling edges are expected.
#[derive(Clone, Copy, Debug, PartialEq, Eq, Structural)]
pub enum SyncState {
    Unsynchronized,
    CandidateFound { phase: u32, first_seen: u32 },
    Validated { phase: u32 },
}

/// `gap` is a whole number of seconds, at least one, give or take the
/// tolerance.
pub open spec fn spec_whole_seconds(gap: u32) -> bool {
    gap >= SECOND_MS - PHASE_TOLERANCE_MS && (gap % SECOND_MS <= PHASE_TOLERANCE_MS || gap
        % SECOND_MS >= SECOND_MS - PHASE_TOLERANCE_MS)
}

/// Whether `gap` is a whole number of seconds, at least one, give or take the
/// tolerance.
#[verifier::when_used_as_spec(spec_whole_seconds)]
pub fn whole_seconds(gap: u32) -> (whole: bool)
    ensures
        whole == spec_whole_seconds(gap),
{
    let rest: u32 = gap % SECOND_MS;
    gap >= SECOND_MS - PHASE_TOLERANCE_MS && (rest <= PHASE_TOLERANCE_MS || rest >= SECOND_MS
        - PHASE_TOLERANCE_MS)
}

/// The number of seconds nearest to `gap`.
pub open spec fn spec_nearest_seconds(gap: u32) -> u32 {
    ((gap + SECOND_MS / 2) / (SECOND_MS as int)) as u32
}

/// The number of seconds nearest to `gap`.
#[verifier::when_used_as_spec(spec_nearest_seconds)]
pub fn nearest_seconds(gap: u32) -> (seconds: u32)
    ensures
        seconds == spec_nearest_seconds(gap),
{
    let whole: u32 = gap / SECOND_MS;
    if gap % SECOND_MS >= SECOND_MS / 2 {
        whole + 1
    } else {
        whole
    }
}

/// An earlier and a later falling edge that can be the starts of two seconds:
/// they lie inside the observation window and a whole number of seconds
/// apart.
pub open spec fn spec_pair_aligned(earlier: u32, later: u32) -> bool {
    let gap = spec_elapsed_ms(earlier, later);
    gap <= OBSERVATION_WINDOW_MS + PHASE_TOLERANCE_MS && spec_whole_seconds(gap)
}

/// Whether an earlier and a later falling edge can be the starts of two
/// seconds.
#[verifier::when_used_as_spec(spec_pair_aligned)]
pub fn pair_aligned(earlier: u32, later: u32) -> (aligned: bool)
    ensures
        aligned == spec_pair_aligned(earlier, later),
{
    let gap: u32 = elapsed_ms(earlier, later);
    gap <= OBSERVATION_WINDOW_MS + PHASE_TOLERANCE_MS && whole_seconds(gap)
}

/// Some edge of `history` is aligned with the new edge at `t`.
pub open spec fn has_partner(history: Seq<u32>, t: u32) -> bool {
    exists|i: int| 0 <= i < history.len() && spec_pair_aligned(#[trigger] history[i], t)
}

/// What a synchroniser holds, as mathematics.
pub struct SyncModel {
    /// Timestamps of the most recent falling edges, oldest first.
    pub falling: Seq<u32>,
    /// Timestamps of the most recent rising edges, oldest first.
    pub rising: Seq<u32>,
    pub state: SyncState,
    /// The latest edge that was accepted as the start of a second; zero while
    /// unsynchronised.
    pub anchor: u32,
    /// Confirming edges that the candidate has collected so far.
    pub corroborations: u32,
}

impl SyncModel {
    /// The state before any edge.
    pub open spec fn initial() -> SyncModel {
        SyncModel {
            falling: Seq::empty(),
            rising: Seq::empty(),
            state: SyncState::Unsynchronized,
            anchor: 0,
            corroborations: 0,
        }
    }

    /// The same histories with the synchronisation given up.
    pub open spec fn desynchronized(self) -> SyncModel {
        SyncModel { state: SyncState::Unsynchronized, anchor: 0, corroborations: 0, ..self }
    }

    /// The same histories with `t` accepted as the start of a second while a
    /// candidate is being confirmed.
    pub open spec fn corroborated(self, first_seen: u32, t: u32) -> SyncModel {
        if self.corroborations + 1 >= REQUIRED_CORROBORATIONS {
            SyncModel {
                state: SyncState::Validated { phase: t % SECOND_MS },
                anchor: t,
                corroborations: 0,
                ..self
            }
        } else {
            SyncModel {
                state: SyncState::CandidateFound { phase: t % SECOND_MS, first_seen },
                anchor: t,
                corroborations: (self.corroborations + 1) as u32,
                ..self
            }
        }
    }

    /// At `now` the candidate has outlived the validation window, or the lock
    /// has gone unconfirmed for longer than the lock timeout.
    pub open spec fn timed_out(self, now: u32) -> bool {
        match self.state {
            SyncState::Unsynchronized => false,
            SyncState::CandidateFound { phase, first_seen } => spec_elapsed_ms(first_seen, now)
                > VALIDATION_WINDOW_MS,
            SyncState::Validated { phase } => spec_elapsed_ms(self.anchor, now) > LOCK_TIMEOUT_MS,
        }
    }

    /// The state once the time `now` has been taken into account: a candidate
    /// or a lock that has timed out is given up.
    pub open spec fn expired(self, now: u32) -> SyncModel {
        if self.timed_out(now) {
            self.desynchronized()
        } else {
            self
        }
    }

    /// How a falling edge at `t` moves the synchronisation, the histories
    /// left as they are.
    ///
    /// A candidate or lock that has timed out is given up, and the edge does
    /// nothing more. Without synchronisation, an edge with a partner in the
    /// history becomes the candidate. Otherwise an edge a whole number of
    /// seconds after the last accepted one is accepted in turn, and any other
    /// edge is ignored.
    pub open spec fn judged(self, t: u32) -> SyncModel {
        if self.timed_out(t) {
            self.desynchronized()
        } else {
            match self.state {
                SyncState::Unsynchronized => if has_partner(self.falling, t) {
                    SyncModel {
                        state: SyncState::CandidateFound { phase: t % SECOND_MS, first_seen: t },
                        anchor: t,
                        corroborations: 0,
                        ..self
                    }
                } else {
                    self
                },
                SyncState::CandidateFound { phase, first_seen } => if spec_whole_seconds(
                    spec_elapsed_ms(self.anchor, t),
                ) {
                    self.corroborated(first_seen, t)
                } else {
                    self
                },
                SyncState::Validated { phase } => if spec_whole_seconds(
                    spec_elapsed_ms(self.anchor, t),
                ) {
                    SyncModel {
                        state: SyncState::Validated { phase: t % SECOND_MS },
                        anchor: t,
                        ..self
                    }
                } else {
                    self
                },
            }
        }
    }

    /// The state after a falling edge at `t`: the edge is judged against the
    /// history before it, then joins the history.
    pub open spec fn on_falling(self, t: u32) -> SyncModel {
        SyncModel { falling: appended(self.falling, t), ..self.judged(t) }
    }

    /// The state after a rising edge at `t`: the edge joins its history and
    /// the synchronisation is left alone.
    pub open spec fn on_rising(self, t: u32) -> SyncModel {
        SyncModel { rising: appended(self.rising, t), ..self }
    }

    /// The state after a transition of kind `signal` at `t`.
    pub open spec fn step(self, signal: Edge, t: u32) -> SyncModel {
        match signal {
            Edge::Falling => self.on_falling(t),
            Edge::Rising => self.on_rising(t),
            Edge::RisingFalling => self,
        }
    }

    /// The state after a sequence of falling edges, taken in order.
    pub open spec fn run_falling(self, edges: Seq<u32>) -> SyncModel
        decreases edges.len(),
    {
        if edges.len() == 0 {
            self
        } else {
            self.run_falling(edges.drop_last()).on_falling(edges.last())
        }
    }

    /// While locked: the number of seconds from the last accepted second
    /// start to a falling edge at `t`, if that edge is itself the start of a
    /// second.
    pub open spec fn seconds_since_boundary(self, t: u32) -> Option<u32> {
        let gap = spec_elapsed_ms(self.anchor, t);
        if self.state is Validated && gap <= LOCK_TIMEOUT_MS && spec_whole_seconds(gap) {
            Some(spec_nearest_seconds(gap))
        } else {
            None
        }
    }
}

/// Recovers the phase of the second boundary from falling-edge timestamps.
pub struct SecondSync {
    timestamps_edge_down: TimestampRing,
    timestamps_edge_up: TimestampRing,
    state: SyncState,
    anchor: u32,
    corroborations: u32,
}

impl View for SecondSync {
    type V = SyncModel;

    closed spec fn view(&self) -> SyncModel {
        SyncModel {
            falling: self.timestamps_edge_down@,
            rising: self.timestamps_edge_up@,
            state: self.state,
            anchor: self.anchor,
            corroborations: self.corroborations,
        }
    }
}

impl SecondSync {
    /// A synchroniser with empty histories and no lock.
    pub fn new() -> (sync: Self)
        ensures
            sync@ == SyncModel::initial(),
    {
        SecondSync {
            timestamps_edge_down: TimestampRing::new(),
            timestamps_edge_up: TimestampRing::new(),
            state: SyncState::Unsynchronized,
            anchor: 0,
            corroborations: 0,
        }
    }

    /// The current progress of the synchronisation.
    pub fn state(&self) -> (state: SyncState)
        ensures
            state == self@.state,
    {
        self.state
    }

    /// While locked, tells whether a falling edge at `timestamp` is the start
    /// of a second, and how many seconds after the last accepted start it
    /// comes.
    pub fn seconds_since_boundary(&self, timestamp: u32) -> (seconds: Option<u32>)
        ensures
            seconds == self@.seconds_since_boundary(timestamp),
    {
        let gap: u32 = elapsed_ms(self.anchor, timestamp);
        match self.state {
            SyncState::Validated { phase } => {
                if gap <= LOCK_TIMEOUT_MS && whole_seconds(gap) {
                    Some(nearest_seconds(gap))
                } else {
                    None
                }
            },
            _ => None,
        }
    }

    /// Whether the candidate or the lock has timed out at `now`.
    pub fn timed_out(&self, now: u32) -> (out: bool)
        ensures
            out == self@.timed_out(now),
    {
        match self.state {
            SyncState::Unsynchronized => false,
            SyncState::CandidateFound { phase, first_seen } => elapsed_ms(first_seen, now)
                > VALIDATION_WINDOW_MS,
            SyncState::Validated { phase } => elapsed_ms(self.anchor, now) > LOCK_TIMEOUT_MS,
        }
    }

    /// Takes the time `now` into account without an edge: a candidate or a
    /// lock that has timed out is given up.
    pub fn expire(&mut self, now: u32)
        ensures
            final(self)@ == old(self)@.expired(now),
    {
        if self.timed_out(now) {
            self.reset();
        }
    }

    /// Gives the synchronisation up; the histories stay, and acquisition
    /// starts over with the next falling edge.
    pub fn reset(&mut self)
        ensures
            final(self)@ == old(self)@.desynchronized(),
    {
        self.state = SyncState::Unsynchronized;
        self.anchor = 0;
        self.corroborations = 0;
    }

    /// Records a transition of the signal line at `timestamp`.
    ///
    /// A falling edge is judged against the history and the current state,
    /// and then joins the history. A rising edge only joins its history. Any
    /// other kind of edge is refused and changes nothing.
    pub fn register_transition(&mut self, signal: Edge, timestamp: u32) -> (r: Result<
        (),
        SecondSyncError,
    >)
        ensures
            final(self)@ == old(self)@.step(signal, timestamp),
            r == (if signal == Edge::RisingFalling {
                Err::<(), SecondSyncError>(SecondSyncError::WrongTransition)
            } else {
                Ok::<(), SecondSyncError>(())
            }),
    {
        match signal {
            Edge::Falling => {
                self.judge(timestamp);
                self.timestamps_edge_down.push(timestamp);
                Ok(())
            },
            Edge::Rising => {
                self.timestamps_edge_up.push(timestamp);
                Ok(())
            },
            Edge::RisingFalling => Err(SecondSyncError::WrongTransition),
        }
    }

    /// Scans the falling-edge history for an edge that `timestamp` is aligned
    /// with.
    fn find_partner(&self, timestamp: u32) -> (found: bool)
        ensures
            found == has_partner(self@.falling, timestamp),
    {
        let n: usize = self.timestamps_edge_down.len();
        let mut i: usize = 0;
        while i < n
            invariant
                i <= n,
                n == self.timestamps_edge_down@.len(),
                forall|k: int|
                    0 <= k < i ==> !spec_pair_aligned(
                        #[trigger] self.timestamps_edge_down@[k],
                        timestamp,
                    ),
            decreases n - i,
        {
            if pair_aligned(self.timestamps_edge_down.get(i), timestamp) {
                return true;
            }
            i += 1;
        }
        false
    }

    /// Moves the synchronisation on a falling edge at `t`.
    fn judge(&mut self, t: u32)
        ensures
            final(self)@ == old(self)@.judged(t),
    {
        if self.timed_out(t) {
            self.reset();
            return ;
        }
        match self.state {
            SyncState::Unsynchronized => {
                if self.find_partner(t) {
                    self.state = SyncState::CandidateFound { phase: t % SECOND_MS, first_seen: t };
                    self.anchor = t;
                    self.corroborations = 0;
                }
            },
            SyncState::CandidateFound { phase, first_seen } => {
                if whole_seconds(elapsed_ms(self.anchor, t)) {
                    if self.corroborations >= REQUIRED_CORROBORATIONS - 1 {
                        self.state = SyncState::Validated { phase: t % SECOND_MS };
                        self.corroborations = 0;
                    } else {
                        self.state = SyncState::CandidateFound { phase: t % SECOND_MS, first_seen };
                        self.corroborations = self.corroborations + 1;
                    }
                    self.anchor = t;
                }
            },
            SyncState::Validated { phase } => {
                if whole_seconds(elapsed_ms(self.anchor, t)) {
                    self.state = SyncState::Validated { phase: t % SECOND_MS };
                    self.anchor = t;
                }
            },
        }
    }
}

/// The edge at `later` comes one second after the edge at `earlier`, give or
/// take the tolerance.
pub open spec fn one_second_apart(earlier: u32, later: u32) -> bool {
    SECOND_MS - PHASE_TOLERANCE_MS <= spec_elapsed_ms(earlier, later) <= SECOND_MS
        + PHASE_TOLERANCE_MS
}

/// Every edge of `edges` but the first comes one second after the one before.
pub open spec fn clean_seconds(edges: Seq<u32>) -> bool {
    forall|k: int| 0 < k < edges.len() ==> one_second_apart(#[trigger] edges[k - 1], edges[k])
}

/// A candidate without corroboration is dropped and never becomes a lock.
///
/// `m` holds a candidate. As long as falling edges arrive inside the
/// validation window and none of them lies a whole number of seconds after
/// the accepted edge, the candidate stays exactly as it is; the first falling
/// edge after the validation window returns the state to unsynchronised.
pub proof fn lemma_uncorroborated_candidate_expires(
    m: SyncModel,
    phase: u32,
    first_seen: u32,
    edges: Seq<u32>,
    late: u32,
)
    requires
        m.state == (SyncState::CandidateFound { phase, first_seen }),
        forall|i: int|
            0 <= i < edges.len() ==> spec_elapsed_ms(first_seen, #[trigger] edges[i])
                <= VALIDATION_WINDOW_MS && !spec_whole_seconds(spec_elapsed_ms(m.anchor, edges[i])),
        spec_elapsed_ms(first_seen, late) > VALIDATION_WINDOW_MS,
    ensures
        m.run_falling(edges).state == m.state,
        m.run_falling(edges).anchor == m.anchor,
        m.run_falling(edges).corroborations == m.corroborations,
        m.run_falling(edges).on_falling(late).state == SyncState::Unsynchronized,
        m.run_falling(edges).expired(late).state == SyncState::Unsynchronized,
    decreases edges.len(),
{
    if edges.len() > 0 {
        lemma_uncorroborated_candidate_expires(m, phase, first_seen, edges.drop_last(), late);
        let i = edges.len() - 1;
        assert(edges[i] == edges.last());
    }
}

/// While a candidate or a lock has not timed out, a falling edge that does
/// not lie a whole number of seconds after the accepted edge changes nothing
/// but the history.
pub proof fn lemma_stray_edge_ignored(m: SyncModel, t: u32)
    requires
        !(m.state is Unsynchronized),
        !m.timed_out(t),
        !spec_whole_seconds(spec_elapsed_ms(m.anchor, t)),
    ensures
        m.on_falling(t) == (SyncModel { falling: appended(m.falling, t), ..m }),
{
}

/// A lock is entered only from a candidate, and only by the edge that brings
/// the number of its corroborations to the required one.
pub proof fn lemma_lock_needs_corroboration(m: SyncModel, t: u32)
    requires
        !(m.state is Validated),
        m.on_falling(t).state is Validated,
    ensures
        m.state is CandidateFound,
        !m.timed_out(t),
        m.corroborations + 1 >= REQUIRED_CORROBORATIONS,
        spec_whole_seconds(spec_elapsed_ms(m.anchor, t)),
        m.on_falling(t).state == (SyncState::Validated { phase: t % SECOND_MS }),
{
}

/// What holds while a clean signal is being acquired: after `k` of its edges
/// the last of them is the newest entry of the history, and either nothing was
/// found yet (after the first edge only), or a candidate that started with one
/// of the first two edges has been confirmed by every edge since, or the lock
/// is there and follows the newest edge.
spec fn acquiring(s: SyncModel, edges: Seq<u32>, k: int) -> bool {
    let newest = edges[k - 1];
    &&& s.falling.len() > 0
    &&& s.falling.last() == newest
    &&& match s.state {
        SyncState::Unsynchronized => k == 1,
        SyncState::CandidateFound { phase, first_seen } => {
            &&& phase == newest % SECOND_MS
            &&& s.anchor == newest
            &&& s.corroborations < REQUIRED_CORROBORATIONS
            &&& s.corroborations + 1 <= k <= s.corroborations + 2
            &&& spec_elapsed_ms(first_seen, newest) <= s.corroborations * (SECOND_MS
                + PHASE_TOLERANCE_MS)
        },
        SyncState::Validated { phase } => phase == newest % SECOND_MS && s.anchor == newest,
    }
}

proof fn lemma_acquiring_step(s: SyncModel, edges: Seq<u32>, k: int)
    requires
        1 <= k < edges.len(),
        clean_seconds(edges),
        acquiring(s, edges, k),
    ensures
        acquiring(s.on_falling(edges[k]), edges, k + 1),
{
    let newest = edges[k - 1];
    let t = edges[k];
    assert(one_second_apart(edges[k - 1], edges[k]));
    let gap = spec_elapsed_ms(newest, t);
    assert(spec_whole_seconds(gap));
    match s.state {
        SyncState::Unsynchronized => {
            assert(spec_pair_aligned(s.falling[s.falling.len() - 1], t));
            assert(has_partner(s.falling, t));
        },
        SyncState::CandidateFound { phase, first_seen } => {
            lemma_elapsed_adds(first_seen, newest, t);
        },
        SyncState::Validated { phase } => {},
    }
}

proof fn lemma_acquiring_prefix(m: SyncModel, edges: Seq<u32>, k: int)
    requires
        m.state is Unsynchronized,
        clean_seconds(edges),
        1 <= k <= edges.len(),
    ensures
        acquiring(m.run_falling(edges.take(k)), edges, k),
    decreases k,
{
    let prefix = edges.take(k);
    assert(prefix.drop_last() =~= edges.take(k - 1));
    assert(prefix.last() == edges[k - 1]);
    if k == 1 {
        assert(m.run_falling(edges.take(0)) == m);
    } else {
        lemma_acquiring_prefix(m, edges, k - 1);
        lemma_acquiring_step(m.run_falling(edges.take(k - 1)), edges, k - 1);
    }
}

/// A clean signal is locked onto within two seconds more than the required
/// number of corroborations.
///
/// Starting without synchronisation, whatever the histories hold, a run of
/// falling edges that come one second apart, give or take the tolerance, and
/// that is at least two edges longer than the required number of
/// corroborations ends in a lock, and the recovered phase is that of the newest
/// edge.
pub proof fn lemma_clean_signal_locks(m: SyncModel, edges: Seq<u32>)
    requires
        m.state is Unsynchronized,
        clean_seconds(edges),
        edges.len() >= REQUIRED_CORROBORATIONS + 2,
    ensures
        m.run_falling(edges).state == (SyncState::Validated { phase: edges.last() % SECOND_MS }),
        m.run_falling(edges).anchor == edges.last(),
{
    lemma_acquiring_prefix(m, edges, edges.len() as int);
    assert(edges.take(edges.len() as int) =~= edges);
}

/// Number of clean edges after which the synchroniser is locked whatever
/// state it started in: the lock timeout and the acquisition from scratch,
/// counted in seconds that may each be short by the tolerance, and one edge to
/// start with.
pub const WORST_CASE_EDGES: usize = 18;

/// The lock follows the edge at `newest`.
pub open spec fn following(s: SyncModel, newest: u32) -> bool {
    s.state == (SyncState::Validated { phase: newest % SECOND_MS }) && s.anchor == newest
}

/// What holds after every falling edge: the edge is the newest entry of the
/// history, and a candidate or lock that is still there has not timed out.
spec fn heard(s: SyncModel, newest: u32) -> bool {
    &&& s.falling.len() > 0
    &&& s.falling.last() == newest
    &&& !s.timed_out(newest)
}

/// A candidate first seen at `first_seen` that follows the edge at `newest`
/// and has time left in its validation window to collect the corroborations
/// it still needs, one per second.
pub open spec fn on_track(s: SyncModel, first_seen: u32, newest: u32) -> bool {
    &&& s.anchor == newest
    &&& s.corroborations < REQUIRED_CORROBORATIONS
    &&& spec_elapsed_ms(first_seen, newest) + (REQUIRED_CORROBORATIONS - s.corroborations) * (
    SECOND_MS + PHASE_TOLERANCE_MS) <= VALIDATION_WINDOW_MS
}

/// Milliseconds of clean signal that are enough to bring the lock about, the
/// second counted with its shortest length. A candidate on track needs its
/// missing corroborations; without synchronisation one more edge is needed to
/// start a candidate; any other candidate or lock is at worst waited out until
/// it times out.
spec fn settling(s: SyncModel, newest: u32) -> int {
    let second = SECOND_MS - PHASE_TOLERANCE_MS;
    let from_scratch = (REQUIRED_CORROBORATIONS + 1) * second;
    match s.state {
        SyncState::Unsynchronized => from_scratch,
        SyncState::CandidateFound { phase, first_seen } => if on_track(s, first_seen, newest) {
            (REQUIRED_CORROBORATIONS - s.corroborations) * second
        } else {
            VALIDATION_WINDOW_MS - spec_elapsed_ms(first_seen, newest) + second + from_scratch
        },
        SyncState::Validated { phase } => if following(s, newest) {
            0
        } else {
            LOCK_TIMEOUT_MS - spec_elapsed_ms(s.anchor, newest) + second + from_scratch
        },
    }
}

/// One more clean edge keeps a lock that follows the signal, and brings
/// every other state closer to the lock by the shortest length of a second.
proof fn lemma_settling_step(s: SyncModel, newest: u32, t: u32)
    requires
        heard(s, newest),
        one_second_apart(newest, t),
    ensures
        heard(s.on_falling(t), t),
        following(s, newest) ==> following(s.on_falling(t), t),
        !following(s, newest) ==> settling(s.on_falling(t), t) + (SECOND_MS - PHASE_TOLERANCE_MS)
            <= settling(s, newest),
{
    let gap = spec_elapsed_ms(newest, t);
    assert(spec_whole_seconds(gap));
    match s.state {
        SyncState::Unsynchronized => {
            assert(spec_pair_aligned(s.falling[s.falling.len() - 1], t));
            assert(has_partner(s.falling, t));
        },
        SyncState::CandidateFound { phase, first_seen } => {
            lemma_elapsed_adds(first_seen, newest, t);
        },
        SyncState::Validated { phase } => {
            lemma_elapsed_adds(s.anchor, newest, t);
        },
    }
}

/// The first edge leaves a state from which at most the lock timeout and an
/// acquisition from scratch are to go.
proof fn lemma_settling_start(m: SyncModel, t: u32)
    ensures
        heard(m.on_falling(t), t),
        settling(m.on_falling(t), t) <= LOCK_TIMEOUT_MS + (REQUIRED_CORROBORATIONS + 2) * (
        SECOND_MS - PHASE_TOLERANCE_MS),
{
}

proof fn lemma_settling_prefix(m: SyncModel, edges: Seq<u32>, k: int)
    requires
        clean_seconds(edges),
        1 <= k <= edges.len(),
    ensures
        heard(m.run_falling(edges.take(k)), edges[k - 1]),
        following(m.run_falling(edges.take(k)), edges[k - 1]) || settling(
            m.run_falling(edges.take(k)),
            edges[k - 1],
        ) <= LOCK_TIMEOUT_MS + (REQUIRED_CORROBORATIONS + 2) * (SECOND_MS - PHASE_TOLERANCE_MS) - (
        k - 1) * (SECOND_MS - PHASE_TOLERANCE_MS),
    decreases k,
{
    let prefix = edges.take(k);
    assert(prefix.drop_last() =~= edges.take(k - 1));
    assert(prefix.last() == edges[k - 1]);
    if k == 1 {
        assert(m.run_falling(edges.take(0)) == m);
        lemma_settling_start(m, edges[0]);
    } else {
        lemma_settling_prefix(m, edges, k - 1);
        assert(one_second_apart(edges[k - 1 - 1], edges[k - 1]));
        lemma_settling_step(m.run_falling(edges.take(k - 1)), edges[k - 2], edges[k - 1]);
    }
}

/// Acquisition is bounded: whatever state the synchroniser is in, and
/// whatever its histories hold, a clean signal of at least
/// `WORST_CASE_EDGES` falling edges, one second apart give or take the
/// tolerance, ends in a lock that follows the newest edge.
pub proof fn lemma_clean_signal_locks_from_any_state(m: SyncModel, edges: Seq<u32>)
    requires
        clean_seconds(edges),
        edges.len() >= WORST_CASE_EDGES,
    ensures
        following(m.run_falling(edges), edges.last()),
{
    lemma_settling_prefix(m, edges, edges.len() as int);
    assert(edges.take(edges.len() as int) =~= edges);
    let s = m.run_falling(edges);
    if !following(s, edges.last()) {
        assert(settling(s, edges.last()) >= SECOND_MS - PHASE_TOLERANCE_MS);
    }
}

/// Distance between two offsets within the second, the shorter way round.
pub open spec fn phase_distance(a: int, b: int) -> int {
    let d = if a >= b {
        a - b
    } else {
        b - a
    };
    if d <= SECOND_MS - d {
        d
    } else {
        SECOND_MS - d
    }
}

/// The phase of an edge is as close to the true phase as the edge is to the
/// true start of its second: for an edge at most the tolerance away from
/// `true_start`, the two offsets within the second differ by at most the
/// tolerance.
pub proof fn lemma_phase_within_jitter(true_start: u32, edge: u32)
    requires
        true_start - PHASE_TOLERANCE_MS <= edge <= true_start + PHASE_TOLERANCE_MS,
    ensures
        phase_distance((edge % SECOND_MS) as int, (true_start % SECOND_MS) as int)
            <= PHASE_TOLERANCE_MS,
{
}

/// The edge at `t` falls inside the second that started at `beat`, before the
/// next second start can be expected.
pub open spec fn stray(beat: u32, t: u32) -> bool {
    spec_elapsed_ms(beat, t) < SECOND_MS - PHASE_TOLERANCE_MS
}

/// The latest second start after `edges`, when `beat` was the latest one
/// before them: every edge one second after the latest start is the next
/// start.
pub open spec fn beat_after(beat: u32, edges: Seq<u32>) -> u32
    decreases edges.len(),
{
    if edges.len() == 0 {
        beat
    } else {
        let before = beat_after(beat, edges.drop_last());
        if one_second_apart(before, edges.last()) {
            edges.last()
        } else {
            before
        }
    }
}

/// Every edge of `edges` is either the next second start, one second after
/// the latest one, or a stray edge inside the running second.
pub open spec fn keeps_time(beat: u32, edges: Seq<u32>) -> bool
    decreases edges.len(),
{
    if edges.len() == 0 {
        true
    } else {
        let before = beat_after(beat, edges.drop_last());
        &&& keeps_time(beat, edges.drop_last())
        &&& (one_second_apart(before, edges.last()) || stray(before, edges.last()))
    }
}

/// Stray edges do not shake a lock: a lock that follows the signal keeps
/// following it through any number of stray edges between the second starts.
pub proof fn lemma_lock_holds_among_stray_edges(m: SyncModel, beat: u32, edges: Seq<u32>)
    requires
        following(m, beat),
        keeps_time(beat, edges),
    ensures
        following(m.run_falling(edges), beat_after(beat, edges)),
    decreases edges.len(),
{
    if edges.len() > 0 {
        lemma_lock_holds_among_stray_edges(m, beat, edges.drop_last());
    }
}

/// Number of second starts among `edges`, when `beat` was the latest one
/// before them.
pub open spec fn beats_in(beat: u32, edges: Seq<u32>) -> nat
    decreases edges.len(),
{
    if edges.len() == 0 {
        0
    } else {
        let before = beat_after(beat, edges.drop_last());
        beats_in(beat, edges.drop_last()) + if one_second_apart(before, edges.last()) {
            1nat
        } else {
            0nat
        }
    }
}

/// A candidate on the beat stays on track through stray edges, with one
/// more corroboration for every second start, until it has become a lock.
proof fn lemma_candidate_progress(
    m: SyncModel,
    phase: u32,
    first_seen: u32,
    beat: u32,
    edges: Seq<u32>,
)
    requires
        m.state == (SyncState::CandidateFound { phase, first_seen }),
        on_track(m, first_seen, beat),
        keeps_time(beat, edges),
    ensures
        ({
            let s = m.run_falling(edges);
            let newest = beat_after(beat, edges);
            ||| following(s, newest)
            ||| {
                &&& s.state matches SyncState::CandidateFound { phase: p, first_seen: f }
                &&& f == first_seen
                &&& on_track(s, first_seen, newest)
                &&& s.corroborations == m.corroborations + beats_in(beat, edges)
            }
        }),
    decreases edges.len(),
{
    if edges.len() > 0 {
        lemma_candidate_progress(m, phase, first_seen, beat, edges.drop_last());
        let before = beat_after(beat, edges.drop_last());
        if !following(m.run_falling(edges.drop_last()), before) {
            lemma_elapsed_adds(first_seen, before, edges.last());
        }
    }
}

/// Stray edges do not keep a candidate on the beat from locking: a candidate
/// that follows the signal and has time left for the corroborations it needs
/// is a lock once that many second starts have come, whatever stray edges
/// fall in between, and the lock follows the latest second start.
pub proof fn lemma_candidate_locks_among_stray_edges(
    m: SyncModel,
    phase: u32,
    first_seen: u32,
    beat: u32,
    edges: Seq<u32>,
)
    requires
        m.state == (SyncState::CandidateFound { phase, first_seen }),
        on_track(m, first_seen, beat),
        keeps_time(beat, edges),
        m.corroborations + beats_in(beat, edges) >= REQUIRED_CORROBORATIONS,
    ensures
        following(m.run_falling(edges), beat_after(beat, edges)),
{
    lemma_candidate_progress(m, phase, first_seen, beat, edges);
}

/// None of `strays`, arriving in this order after the state `s`, lies a whole
/// number of seconds after an edge that the history holds when it arrives.
pub open spec fn unpaired(s: SyncModel, strays: Seq<u32>) -> bool
    decreases strays.len(),
{
    if strays.len() == 0 {
        true
    } else {
        &&& unpaired(s, strays.drop_last())
        &&& !has_partner(s.run_falling(strays.drop_last()).falling, strays.last())
    }
}

/// Without synchronisation, edges that pair with nothing only join the
/// history, and fewer of them than the history holds do not push the edge
/// that came before them out of it.
proof fn lemma_unpaired_strays_wait(s: SyncModel, beat: u32, strays: Seq<u32>)
    requires
        s.state is Unsynchronized,
        s.falling.len() > 0,
        s.falling.last() == beat,
        unpaired(s, strays),
        strays.len() < HISTORY_CAPACITY,
    ensures
        s.run_falling(strays).state is Unsynchronized,
        s.run_falling(strays).falling.len() > strays.len(),
        s.run_falling(strays).falling[s.run_falling(strays).falling.len() - 1 - strays.len()]
            == beat,
    decreases strays.len(),
{
    if strays.len() > 0 {
        lemma_unpaired_strays_wait(s, beat, strays.drop_last());
    }
}

/// Spurious edges that pair with nothing do not delay acquisition.
///
/// Without synchronisation, the signal is heard for the first time at
/// `beat`. Spurious edges follow, fewer than the history holds, none of them
/// a whole number of seconds after an edge in the history. The signal comes
/// again at `next`, one second after `beat`, and goes on among stray edges
/// inside the seconds. Then the edge at `next` is the candidate, and once the
/// required number of second starts has followed it, the lock is there and
/// follows the latest second start: the lock comes with the signal's own
/// edges, two more than the required corroborations.
pub proof fn lemma_signal_locks_among_unpaired_strays(
    m: SyncModel,
    beat: u32,
    strays: Seq<u32>,
    next: u32,
    rest: Seq<u32>,
)
    requires
        m.state is Unsynchronized,
        !has_partner(m.falling, beat),
        unpaired(m.on_falling(beat), strays),
        strays.len() < HISTORY_CAPACITY,
        one_second_apart(beat, next),
        keeps_time(next, rest),
        beats_in(next, rest) >= REQUIRED_CORROBORATIONS,
    ensures
        m.on_falling(beat).run_falling(strays).on_falling(next).state == (
        SyncState::CandidateFound { phase: next % SECOND_MS, first_seen: next }),
        following(
            m.on_falling(beat).run_falling(strays).on_falling(next).run_falling(rest),
            beat_after(next, rest),
        ),
{
    let heard = m.on_falling(beat);
    lemma_unpaired_strays_wait(heard, beat, strays);
    let waited = heard.run_falling(strays);
    let at = waited.falling.len() - 1 - strays.len();
    assert(spec_pair_aligned(waited.falling[at], next));
    assert(has_partner(waited.falling, next));
    let candidate = waited.on_falling(next);
    lemma_candidate_locks_among_stray_edges(candidate, next % SECOND_MS, next, next, rest);
}

} // verus!
