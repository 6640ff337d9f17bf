//! Pulse measurement and frame assembly, driven by the edges of the signal.
//!
//! The line idles high. At the start of every second but the last of the
//! minute it drops for about 100 ms to send a zero or for about 200 ms to
//! send a one. The decoder is driven once per edge: the time from a falling
//! edge that starts a second to the next rising edge is the width of the
//! pulse and gives the bit. Which falling edges start a second is decided by
//! the second synchroniser; only while it is locked are pulses measured.
//!
//! A falling edge two seconds after the previous second start means that one
//! second went by without a pulse: that is the minute marker. It puts the bit
//! index back to zero, and when exactly 59 bits were collected since the
//! marker before, they are handed over as a completed frame. Anything
//! irregular in between discards the bits collected so far, and collecting
//! starts again at the next marker.
//!
//! A raw level that is sampled at a fixed rate can be fed through
//! [`DCF77Decoder::read_bit`], which debounces it and turns every change of
//! the stable level into an edge.

use vstd::prelude::*;
use crate::cycle_clock::{ClockModel, CycleClock};
use crate::frame::{Frame, FRAME_BITS};
use crate::second_sync::{
    one_second_apart, Edge, SecondSync, SyncModel, SyncState, PHASE_TOLERANCE_MS, SECOND_MS,
};
pub use crate::signal_smoother::SignalSmoother;
use crate::signal_smoother::SmootherState;
use crate::timestamp_ring::{elapsed_ms, spec_elapsed_ms};

verus! {

/// Number of raw samples that must agree before the stable level changes.
pub const SMOOTHING_WINDOW: usize = 8;

/// A pulse shorter than this many milliseconds is a zero.
pub const ONE_THRESHOLD_MS: u32 = 150;

/// The longest pulse, in milliseconds, that is still a one.
pub const MAX_PULSE_MS: u32 = 250;

#[derive(Clone, Copy, Debug, PartialEq, Eq, Structural)]
pub enum DecoderError {
    /// Two edges in the same direction followed each other.
    WrongTransition,
}

/// The bit that a pulse of `width_ms` milliseconds stands for: a zero below
/// 150 ms, a one from 150 ms up to and including 250 ms, and no bit beyond.
pub open spec fn spec_classify_pulse(width_ms: u32) -> Option<bool> {
    if width_ms < ONE_THRESHOLD_MS {
        Some(false)
    } else if width_ms <= MAX_PULSE_MS {
        Some(true)
    } else {
        None
    }
}

/// Classifies a pulse by its width in milliseconds.
#[verifier::when_used_as_spec(spec_classify_pulse)]
pub fn classify_pulse(width_ms: u32) -> (bit: Option<bool>)
    ensures
        bit == spec_classify_pulse(width_ms),
{
    if width_ms < ONE_THRESHOLD_MS {
        Some(false)
    } else if width_ms <= MAX_PULSE_MS {
        Some(true)
    } else {
        None
    }
}

/// One pulse on the line: the times, in milliseconds, of the falling edge
/// that starts it and of the rising edge that ends it.
pub struct Pulse {
    pub falls_at: u32,
    pub rises_at: u32,
}

impl Pulse {
    /// How long the line stays low.
    pub open spec fn width(self) -> u32 {
        spec_elapsed_ms(self.falls_at, self.rises_at)
    }
}

/// What a decoder holds, as mathematics.
pub struct DecoderModel {
    pub clock: ClockModel,
    pub smoother: SmootherState,
    pub sync: SyncModel,
    /// The level that the latest accepted edge left the line at; none before
    /// the first edge.
    pub level: Option<bool>,
    /// Start of the pulse that is being measured, if one is open.
    pub pulse_start: Option<u32>,
    /// A minute marker was seen, and nothing irregular since.
    pub collecting: bool,
    /// The bits collected since the marker, one per second.
    pub bits: Seq<bool>,
    /// The bits of the latest completed frame and the time of the marker that
    /// closed it, until they are fetched.
    pub last_frame: Option<(Seq<bool>, u32)>,
}

impl DecoderModel {
    /// The decoder before any edge.
    pub open spec fn initial(clock: ClockModel) -> DecoderModel {
        DecoderModel {
            clock,
            smoother: SmootherState {
                window: Seq::new(SMOOTHING_WINDOW as nat, |i: int| true),
                level: true,
            },
            sync: SyncModel::initial(),
            level: None,
            pulse_start: None,
            collecting: false,
            bits: Seq::empty(),
            last_frame: None,
        }
    }

    /// The same decoder with the bits collected so far thrown away; nothing
    /// is collected until the next minute marker.
    pub open spec fn discarded(self) -> DecoderModel {
        DecoderModel { collecting: false, bits: Seq::empty(), pulse_start: None, ..self }
    }

    /// The decoder after a falling edge at `now`, in milliseconds.
    ///
    /// The synchroniser is asked whether the edge starts a second, and then
    /// records it. A stray edge is ignored while the lock holds; without a
    /// lock the bits are discarded. One second after the previous start a
    /// pulse opens, unless 59 bits are there already and the marker was due.
    /// Two seconds after it the marker is recognised: a new minute starts
    /// with this pulse, and 59 collected bits become the completed frame.
    /// Any longer silence discards the bits.
    pub open spec fn on_falling(self, now: u32) -> DecoderModel {
        let heard = DecoderModel {
            level: Some(false),
            sync: self.sync.on_falling(now),
            ..self
        };
        match self.sync.seconds_since_boundary(now) {
            None => if heard.sync.state is Validated {
                heard
            } else {
                heard.discarded()
            },
            Some(seconds) => if seconds == 1 {
                if heard.collecting && heard.bits.len() >= FRAME_BITS {
                    heard.discarded()
                } else {
                    DecoderModel { pulse_start: Some(now), ..heard }
                }
            } else if seconds == 2 {
                DecoderModel {
                    collecting: true,
                    bits: Seq::empty(),
                    pulse_start: Some(now),
                    last_frame: if heard.collecting && heard.bits.len() == FRAME_BITS {
                        Some((heard.bits, now))
                    } else {
                        heard.last_frame
                    },
                    ..heard
                }
            } else {
                heard.discarded()
            },
        }
    }

    /// The decoder after a rising edge at `now`, in milliseconds.
    ///
    /// The edge closes the open pulse, if there is one. While collecting, the
    /// width of the pulse gives the next bit; a pulse too long to be a bit
    /// discards the bits.
    pub open spec fn on_rising(self, now: u32) -> DecoderModel {
        let heard = DecoderModel {
            level: Some(true),
            sync: self.sync.on_rising(now),
            pulse_start: None,
            ..self
        };
        match self.pulse_start {
            Some(start) => if self.collecting {
                match spec_classify_pulse(spec_elapsed_ms(start, now)) {
                    Some(bit) => if self.bits.len() < FRAME_BITS {
                        DecoderModel { bits: self.bits.push(bit), ..heard }
                    } else {
                        heard.discarded()
                    },
                    None => heard.discarded(),
                }
            } else {
                heard
            },
            None => heard,
        }
    }

    /// The edge to the level `low_to_high` does not alternate with the edge
    /// before it: it goes the same way. The first edge has none before it and
    /// is never wrong.
    pub open spec fn wrong_transition(self, low_to_high: bool) -> bool {
        self.level == Some(low_to_high)
    }

    /// The level of the line as the decoder sees it: where the latest edge
    /// left it, and high, the idle level, before the first edge.
    pub open spec fn current_level(self) -> bool {
        match self.level {
            Some(level) => level,
            None => true,
        }
    }

    /// The decoder after an edge at `now`, in milliseconds, that leaves the
    /// line high if `low_to_high` and low otherwise.
    ///
    /// An edge that does not alternate with the one before gives the
    /// synchronisation up and discards the bits.
    pub open spec fn step_at(self, low_to_high: bool, now: u32) -> DecoderModel {
        if self.wrong_transition(low_to_high) {
            DecoderModel { sync: self.sync.desynchronized(), ..self }.discarded()
        } else if low_to_high {
            self.on_rising(now)
        } else {
            self.on_falling(now)
        }
    }

    /// The decoder after a whole pulse: its falling and then its rising edge.
    pub open spec fn after_pulse(self, pulse: Pulse) -> DecoderModel {
        self.step_at(false, pulse.falls_at).step_at(true, pulse.rises_at)
    }

    /// The decoder after a sequence of pulses, taken in order.
    pub open spec fn after_pulses(self, pulses: Seq<Pulse>) -> DecoderModel
        decreases pulses.len(),
    {
        if pulses.len() == 0 {
            self
        } else {
            self.after_pulses(pulses.drop_last()).after_pulse(pulses.last())
        }
    }

    /// The decoder after an edge at the counter reading `now`.
    pub open spec fn step(self, low_to_high: bool, now: u32) -> DecoderModel {
        let clock = self.clock.advanced(now);
        DecoderModel { clock, ..self }.step_at(low_to_high, clock.millis)
    }

    /// What an edge to the level `low_to_high` is answered with.
    pub open spec fn outcome(self, low_to_high: bool) -> Result<(), DecoderError> {
        if self.wrong_transition(low_to_high) {
            Err(DecoderError::WrongTransition)
        } else {
            Ok(())
        }
    }

    /// The stable level flips with the raw sample `raw`.
    pub open spec fn sample_flips(self, raw: bool) -> bool {
        self.smoother.step(raw).level != self.smoother.level
    }

    /// The decoder after a raw sample taken at the counter reading `now`: the
    /// sample goes through the smoother, and a flip of the stable level is an
    /// edge to the new level. Without a flip only time passes, which may
    /// time the synchronisation out and with it discard the bits.
    pub open spec fn sampled(self, raw: bool, now: u32) -> DecoderModel {
        let smoother = self.smoother.step(raw);
        let fed = DecoderModel { smoother, ..self };
        if self.sample_flips(raw) {
            fed.step(smoother.level, now)
        } else {
            let clock = self.clock.advanced(now);
            let sync = self.sync.expired(clock.millis);
            let waited = DecoderModel { clock, sync, ..fed };
            if self.sync.timed_out(clock.millis) {
                waited.discarded()
            } else {
                waited
            }
        }
    }

    /// What a raw sample is answered with.
    pub open spec fn sample_outcome(self, raw: bool) -> Result<(), DecoderError> {
        if self.sample_flips(raw) {
            self.outcome(self.smoother.step(raw).level)
        } else {
            Ok(())
        }
    }
}

/// Edge-driven decoder: measures pulses, classifies bits and assembles the
/// frame of a minute.
pub struct DCF77Decoder {
    second_sync: SecondSync,
    clock: CycleClock,
    smoother: SignalSmoother<SMOOTHING_WINDOW>,
    level: Option<bool>,
    pulse_start: Option<u32>,
    collecting: bool,
    bits: [bool; FRAME_BITS],
    index: usize,
    last_frame: Option<Frame>,
}

impl View for DCF77Decoder {
    type V = DecoderModel;

    closed spec fn view(&self) -> DecoderModel {
        DecoderModel {
            clock: self.clock@,
            smoother: self.smoother@,
            sync: self.second_sync@,
            level: self.level,
            pulse_start: self.pulse_start,
            collecting: self.collecting,
            bits: Seq::new(self.index as nat, |i: int| self.bits@[i]),
            last_frame: match self.last_frame {
                Some(frame) => Some((frame.bits@, frame.marker_at)),
                None => None,
            },
        }
    }
}

impl DCF77Decoder {
    /// A decoder that has seen no edge yet and reads time from `clock`. Its
    /// first edge may go either way.
    pub fn new(clock: CycleClock) -> (decoder: Self)
        ensures
            decoder@ == DecoderModel::initial(clock@),
    {
        let decoder = DCF77Decoder {
            second_sync: SecondSync::new(),
            clock,
            smoother: SignalSmoother::new(),
            level: None,
            pulse_start: None,
            collecting: false,
            bits: [false; FRAME_BITS],
            index: 0,
            last_frame: None,
        };
        assert(decoder@.bits =~= Seq::<bool>::empty());
        decoder
    }

    /// The level of the line as the decoder sees it, for mirroring on a
    /// diagnostic output.
    pub fn current_level(&self) -> (level: bool)
        ensures
            level == self@.current_level(),
    {
        match self.level {
            Some(level) => level,
            None => true,
        }
    }

    /// The progress of the second synchronisation.
    pub fn sync_state(&self) -> (state: SyncState)
        ensures
            state == self@.sync.state,
    {
        self.second_sync.state()
    }

    /// The latest completed frame, if one is waiting to be fetched.
    pub fn last_bits(&self) -> (frame: Option<Frame>)
        ensures
            match frame {
                Some(f) => self@.last_frame == Some((f.bits@, f.marker_at)),
                None => self@.last_frame is None,
            },
    {
        self.last_frame
    }

    /// Forgets the completed frame once it was fetched.
    pub fn reset_last_bits(&mut self)
        ensures
            final(self)@ == (DecoderModel { last_frame: None, ..old(self)@ }),
    {
        self.last_frame = None;
    }

    /// Throws the bits collected so far away.
    fn discard(&mut self)
        ensures
            final(self)@ == old(self)@.discarded(),
    {
        self.collecting = false;
        self.index = 0;
        self.pulse_start = None;
        assert(self@.bits =~= Seq::<bool>::empty());
    }

    /// Appends a bit to the bits collected so far.
    fn append(&mut self, bit: bool)
        requires
            old(self)@.bits.len() < FRAME_BITS,
        ensures
            final(self)@ == (DecoderModel { bits: old(self)@.bits.push(bit), ..old(self)@ }),
    {
        self.bits[self.index] = bit;
        self.index = self.index + 1;
        assert(self@.bits =~= old(self)@.bits.push(bit));
    }

    /// Registers an edge of the line, sampled at the counter reading `now`.
    /// `low_to_high` tells the level after the edge.
    ///
    /// The first edge is accepted whichever way it goes; after it, edges must
    /// alternate. One that goes the same way as the edge before it is
    /// answered with `WrongTransition`; it gives the synchronisation up and
    /// discards the bits collected so far, and decoding goes on from there.
    pub fn register_transition(&mut self, low_to_high: bool, now: u32) -> (r: Result<
        (),
        DecoderError,
    >)
        ensures
            final(self)@ == old(self)@.step(low_to_high, now),
            r == old(self)@.outcome(low_to_high),
    {
        let now_ms: u32 = self.clock.timestamp_ms(now);
        self.transition_at(low_to_high, now_ms)
    }

    /// Registers an edge of the line at the time `now`, in milliseconds.
    fn transition_at(&mut self, low_to_high: bool, now: u32) -> (r: Result<(), DecoderError>)
        ensures
            final(self)@ == old(self)@.step_at(low_to_high, now),
            r == old(self)@.outcome(low_to_high),
    {
        let repeated: bool = match self.level {
            Some(level) => level == low_to_high,
            None => false,
        };
        if repeated {
            self.second_sync.reset();
            self.discard();
            return Err(DecoderError::WrongTransition);
        }
        self.level = Some(low_to_high);
        if low_to_high {
            match self.second_sync.register_transition(Edge::Rising, now) {
                Ok(_) => (),
                Err(_e) => return Err(DecoderError::WrongTransition),
            }
            let pulse_start = self.pulse_start;
            self.pulse_start = None;
            match pulse_start {
                Some(start) => {
                    if self.collecting {
                        match classify_pulse(elapsed_ms(start, now)) {
                            Some(bit) => {
                                if self.index < FRAME_BITS {
                                    self.append(bit);
                                } else {
                                    self.discard();
                                }
                            },
                            None => {
                                self.discard();
                            },
                        }
                    }
                },
                None => {},
            }
        } else {
            let boundary = self.second_sync.seconds_since_boundary(now);
            match self.second_sync.register_transition(Edge::Falling, now) {
                Ok(_) => (),
                Err(_e) => return Err(DecoderError::WrongTransition),
            }
            match boundary {
                None => {
                    match self.second_sync.state() {
                        SyncState::Validated { phase } => {},
                        _ => {
                            self.discard();
                        },
                    }
                },
                Some(seconds) => {
                    if seconds == 1 {
                        if self.collecting && self.index >= FRAME_BITS {
                            self.discard();
                        } else {
                            self.pulse_start = Some(now);
                        }
                    } else if seconds == 2 {
                        if self.collecting && self.index == FRAME_BITS {
                            self.last_frame = Some(Frame { bits: self.bits, marker_at: now });
                            assert(old(self)@.bits =~= self.bits@);
                        }
                        self.collecting = true;
                        self.index = 0;
                        self.pulse_start = Some(now);
                        assert(self@.bits =~= Seq::<bool>::empty());
                    } else {
                        self.discard();
                    }
                },
            }
        }
        Ok(())
    }

    /// Takes one raw sample of the line, sampled at the counter reading
    /// `now`, for a line that is polled at a fixed rate.
    ///
    /// The sample is debounced; when it flips the stable level, that is
    /// registered as an edge to the new level.
    pub fn read_bit(&mut self, raw: bool, now: u32) -> (r: Result<(), DecoderError>)
        ensures
            final(self)@ == old(self)@.sampled(raw, now),
            r == old(self)@.sample_outcome(raw),
    {
        let before: bool = self.smoother.level();
        let after: bool = self.smoother.add_signal(raw);
        if after != before {
            self.register_transition(after, now)
        } else {
            let now_ms: u32 = self.clock.timestamp_ms(now);
            if self.second_sync.timed_out(now_ms) {
                self.second_sync.reset();
                self.discard();
            }
            Ok(())
        }
    }
}

/// The edge at `later` comes two seconds after the edge at `earlier`, give or
/// take the tolerance: the second in between had no pulse.
pub open spec fn two_seconds_apart(earlier: u32, later: u32) -> bool {
    2 * SECOND_MS - PHASE_TOLERANCE_MS <= spec_elapsed_ms(earlier, later) <= 2 * SECOND_MS
        + PHASE_TOLERANCE_MS
}

/// The pulses of one minute as it is sent: 59 pulses, each starting one
/// second after the one before, none too long to be a bit.
pub open spec fn pulses_of_a_minute(pulses: Seq<Pulse>) -> bool {
    &&& pulses.len() == FRAME_BITS
    &&& forall|k: int|
        0 < k < pulses.len() ==> one_second_apart(
            (#[trigger] pulses[k - 1]).falls_at,
            pulses[k].falls_at,
        )
    &&& forall|k: int| 0 <= k < pulses.len() ==> (#[trigger] pulses[k]).width() <= MAX_PULSE_MS
}

/// The bits that a sequence of pulses stands for.
pub open spec fn bits_sent(pulses: Seq<Pulse>) -> Seq<bool> {
    Seq::new(pulses.len(), |k: int| pulses[k].width() >= ONE_THRESHOLD_MS)
}

/// What holds `k` pulses into a minute: the line is high again, the lock
/// follows the latest pulse, and the bits of the `k` pulses are collected.
spec fn mid_minute(
    m: DecoderModel,
    pulses: Seq<Pulse>,
    k: int,
    pending: Option<(Seq<bool>, u32)>,
) -> bool {
    &&& m.level == Some(true)
    &&& m.sync.state is Validated
    &&& m.sync.anchor == pulses[k - 1].falls_at
    &&& m.collecting
    &&& m.pulse_start is None
    &&& m.bits == bits_sent(pulses).take(k)
    &&& m.last_frame == pending
}

proof fn lemma_mid_minute_step(
    m: DecoderModel,
    pulses: Seq<Pulse>,
    k: int,
    pending: Option<(Seq<bool>, u32)>,
)
    requires
        pulses_of_a_minute(pulses),
        1 <= k < pulses.len(),
        mid_minute(m, pulses, k, pending),
    ensures
        mid_minute(m.after_pulse(pulses[k]), pulses, k + 1, pending),
{
    let pulse = pulses[k];
    assert(one_second_apart(pulses[k - 1].falls_at, pulses[k].falls_at));
    assert(pulse.width() <= MAX_PULSE_MS);
    assert(m.sync.seconds_since_boundary(pulse.falls_at) == Some(1u32));
    let low = m.step_at(false, pulse.falls_at);
    assert(low.pulse_start == Some(pulse.falls_at));
    let high = low.step_at(true, pulse.rises_at);
    assert(high.bits =~= bits_sent(pulses).take(k + 1));
}

proof fn lemma_mid_minute_prefix(s: DecoderModel, pulses: Seq<Pulse>, k: int)
    requires
        s.level != Some(false),
        s.sync.state is Validated,
        pulses_of_a_minute(pulses),
        two_seconds_apart(s.sync.anchor, pulses[0].falls_at),
        1 <= k <= pulses.len(),
    ensures
        mid_minute(
            s.after_pulses(pulses.take(k)),
            pulses,
            k,
            s.step_at(false, pulses[0].falls_at).last_frame,
        ),
    decreases k,
{
    let prefix = pulses.take(k);
    assert(prefix.drop_last() =~= pulses.take(k - 1));
    assert(prefix.last() == pulses[k - 1]);
    if k == 1 {
        let pulse = pulses[0];
        assert(s.after_pulses(pulses.take(0)) == s);
        assert(pulse.width() <= MAX_PULSE_MS);
        assert(s.sync.seconds_since_boundary(pulse.falls_at) == Some(2u32));
        let low = s.step_at(false, pulse.falls_at);
        let high = low.step_at(true, pulse.rises_at);
        assert(high.bits =~= bits_sent(pulses).take(1));
    } else {
        lemma_mid_minute_prefix(s, pulses, k - 1);
        lemma_mid_minute_step(
            s.after_pulses(pulses.take(k - 1)),
            pulses,
            k - 1,
            s.step_at(false, pulses[0].falls_at).last_frame,
        );
    }
}

/// A minute of 59 pulses followed by a second without a pulse completes the
/// frame, and does so exactly once.
///
/// The decoder is locked and the line is not low. The first pulse of `pulses`
/// comes two seconds after the last second start, so it follows a minute
/// marker; `pulses` are the 59 pulses of the minute; the falling edge at
/// `closing` comes two seconds after the last of them. Then, while the
/// minute goes by, the frame on offer stays what it was after the opening
/// marker; the closing edge puts the 59 bits sent on offer, with `closing` as
/// the time of the marker; and collecting starts over with no bits.
pub proof fn lemma_minute_completes_once(s: DecoderModel, pulses: Seq<Pulse>, closing: u32)
    requires
        s.level != Some(false),
        s.sync.state is Validated,
        pulses_of_a_minute(pulses),
        two_seconds_apart(s.sync.anchor, pulses[0].falls_at),
        two_seconds_apart(pulses[FRAME_BITS - 1].falls_at, closing),
    ensures
        forall|k: int|
            1 <= k <= FRAME_BITS ==> (#[trigger] s.after_pulses(pulses.take(k))).last_frame
                == s.step_at(false, pulses[0].falls_at).last_frame,
        s.after_pulses(pulses).step_at(false, closing).last_frame == Some(
            (bits_sent(pulses), closing),
        ),
        s.after_pulses(pulses).step_at(false, closing).collecting,
        s.after_pulses(pulses).step_at(false, closing).bits.len() == 0,
{
    assert forall|k: int| 1 <= k <= FRAME_BITS implies (#[trigger] s.after_pulses(
        pulses.take(k),
    )).last_frame == s.step_at(false, pulses[0].falls_at).last_frame by {
        lemma_mid_minute_prefix(s, pulses, k);
    }
    lemma_mid_minute_prefix(s, pulses, FRAME_BITS as int);
    assert(pulses.take(FRAME_BITS as int) =~= pulses);
    let m = s.after_pulses(pulses);
    assert(m.sync.seconds_since_boundary(closing) == Some(2u32));
    assert(m.bits =~= bits_sent(pulses));
}

/// A frame is put on offer by a minute marker only: by a falling edge on a
/// line that is not low, that comes two seconds after the last second start, with exactly
/// 59 bits collected, and the frame on offer is then those bits.
pub proof fn lemma_frame_only_at_marker(m: DecoderModel, low_to_high: bool, now: u32)
    requires
        m.step_at(low_to_high, now).last_frame != m.last_frame,
    ensures
        !low_to_high,
        m.level != Some(false),
        m.sync.seconds_since_boundary(now) == Some(2u32),
        m.collecting,
        m.bits.len() == FRAME_BITS,
        m.step_at(low_to_high, now).last_frame == Some((m.bits, now)),
        m.step_at(low_to_high, now).bits.len() == 0,
{
}

/// The bits collected never outgrow a frame: no edge takes their number
/// beyond 59.
pub proof fn lemma_bits_fit_a_frame(m: DecoderModel, low_to_high: bool, now: u32)
    requires
        m.bits.len() <= FRAME_BITS,
    ensures
        m.step_at(low_to_high, now).bits.len() <= FRAME_BITS,
{
}

/// The first edge of a new decoder is accepted whichever way it goes, and is
/// handed to the synchroniser as a rising or a falling edge.
pub proof fn lemma_first_edge_accepted(clock: ClockModel, low_to_high: bool, now: u32)
    ensures
        DecoderModel::initial(clock).outcome(low_to_high) == Ok::<(), DecoderError>(()),
        DecoderModel::initial(clock).step_at(low_to_high, now).level == Some(low_to_high),
        DecoderModel::initial(clock).step_at(low_to_high, now).sync == SyncModel::initial().step(
            if low_to_high {
                Edge::Rising
            } else {
                Edge::Falling
            },
            now,
        ),
{
}

/// Edges alternate: after an accepted edge, the edge that goes the same way
/// is refused and the edge that goes the other way is accepted.
pub proof fn lemma_edges_alternate(m: DecoderModel, first: bool, now: u32, second: bool)
    requires
        !m.wrong_transition(first),
    ensures
        m.step_at(first, now).outcome(second) == (if second == first {
            Err::<(), DecoderError>(DecoderError::WrongTransition)
        } else {
            Ok::<(), DecoderError>(())
        }),
{
}

} // verus!
